use crate::limits::LimitKind;
use crate::number::Number;
use crate::value::JsonValue;
use vstd::prelude::*;

verus! {

/// The schema fragment is malformed for its keyword.
#[derive(Clone, Copy, Debug, PartialEq, Eq, Structural)]
pub enum CompilationError {
    SchemaError,
}

/// Which side an exclusive bound limits.
#[derive(Clone, Copy, Debug, PartialEq, Eq, Structural)]
pub enum Bound {
    Minimum,
    Maximum,
}

/// What a violation reports besides where it happened and on what value.
#[derive(Debug)]
pub enum ErrorContext {
    Limit { kind: LimitKind, limit: u64 },
    Required { property: String },
    Enum { options: JsonValue },
    Exclusive { bound: Bound, threshold: Number },
    Not { schema: JsonValue },
}

/// One violation: the keyword's context, the instance path at which it was
/// found, and a copy of the offending value.
#[derive(Debug)]
pub struct ValidationError {
    pub instance_path: Vec<String>,
    pub instance: JsonValue,
    pub context: ErrorContext,
}

} // verus!
