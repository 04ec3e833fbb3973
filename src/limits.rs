use crate::context::{copy_path, CompilationContext};
use crate::error::{CompilationError, ErrorContext, ValidationError};
use crate::text::{decimal, render_u64};
use crate::value::{same, JsonValue};
use vstd::prelude::*;
use vstd::string::*;

verus! {

/// The six keywords that bound a count: of array items, of a string's
/// characters, of an object's properties.
#[derive(Clone, Copy, Debug, PartialEq, Eq, Structural)]
pub enum LimitKind {
    MaxItems,
    MinItems,
    MaxLength,
    MinLength,
    MaxProperties,
    MinProperties,
}

pub open spec fn is_max(kind: LimitKind) -> bool {
    kind is MaxItems || kind is MaxLength || kind is MaxProperties
}

pub open spec fn keyword_of(kind: LimitKind) -> Seq<char> {
    match kind {
        LimitKind::MaxItems => "maxItems"@,
        LimitKind::MinItems => "minItems"@,
        LimitKind::MaxLength => "maxLength"@,
        LimitKind::MinLength => "minLength"@,
        LimitKind::MaxProperties => "maxProperties"@,
        LimitKind::MinProperties => "minProperties"@,
    }
}

/// The count that the keyword bounds, where the instance is of its type:
/// items of an array, Unicode scalar values of a string, properties of an
/// object.
pub open spec fn measured(kind: LimitKind, instance: JsonValue) -> Option<nat> {
    match (kind, instance) {
        (LimitKind::MaxItems, JsonValue::Array(xs)) => Some(xs@.len()),
        (LimitKind::MinItems, JsonValue::Array(xs)) => Some(xs@.len()),
        (LimitKind::MaxLength, JsonValue::String(s)) => Some(s@.len()),
        (LimitKind::MinLength, JsonValue::String(s)) => Some(s@.len()),
        (LimitKind::MaxProperties, JsonValue::Object(es)) => Some(es@.len()),
        (LimitKind::MinProperties, JsonValue::Object(es)) => Some(es@.len()),
        _ => None,
    }
}

/// `count <= limit` for a "max" keyword and `count >= limit` for a "min"
/// keyword, where the instance is of the keyword's type; true otherwise.
pub open spec fn limit_holds(kind: LimitKind, limit: nat, instance: JsonValue) -> bool {
    match measured(kind, instance) {
        Some(c) => if is_max(kind) {
            c <= limit
        } else {
            c >= limit
        },
        None => true,
    }
}

/// The value as a non-negative integer, where it is one in integer form.
pub open spec fn as_u64_spec(v: JsonValue) -> Option<u64> {
    match v {
        JsonValue::Number(crate::number::Number::PosInt(u)) => Some(u),
        JsonValue::Number(crate::number::Number::NegInt(i)) => if i >= 0 {
            Some(i as u64)
        } else {
            None
        },
        _ => None,
    }
}

pub fn as_u64(v: &JsonValue) -> (r: Option<u64>)
    ensures
        r == as_u64_spec(*v),
{
    match v {
        JsonValue::Number(crate::number::Number::PosInt(u)) => Some(*u),
        JsonValue::Number(crate::number::Number::NegInt(i)) => if *i >= 0 {
            Some(*i as u64)
        } else {
            None
        },
        _ => None,
    }
}

/// A compiled size keyword.
pub struct LimitValidator {
    pub kind: LimitKind,
    pub limit: u64,
    pub instance_path: Vec<String>,
}

impl LimitValidator {
    /// Compiles the keyword `kind` from its fragment, which must be a
    /// non-negative integer.
    pub fn compile(kind: LimitKind, schema: &JsonValue, instance_path: Vec<String>) -> (r: Result<
        LimitValidator,
        CompilationError,
    >)
        ensures
            r is Ok <==> as_u64_spec(*schema) is Some,
            r is Ok ==> r->Ok_0.kind == kind && r->Ok_0.limit == as_u64_spec(*schema)->Some_0
                && r->Ok_0.instance_path@ == instance_path@,
    {
        match as_u64(schema) {
            Some(limit) => Ok(LimitValidator { kind, limit, instance_path }),
            None => Err(CompilationError::SchemaError),
        }
    }

    /// The count that the keyword bounds, where the instance is of its type.
    fn count(&self, instance: &JsonValue) -> (r: Option<u64>)
        ensures
            match measured(self.kind, *instance) {
                Some(c) => r == Some(c as u64) && c <= u64::MAX,
                None => r is None,
            },
    {
        match (self.kind, instance) {
            (LimitKind::MaxItems, JsonValue::Array(xs)) => Some(xs.len() as u64),
            (LimitKind::MinItems, JsonValue::Array(xs)) => Some(xs.len() as u64),
            (LimitKind::MaxLength, JsonValue::String(s)) => Some(s.as_str().unicode_len() as u64),
            (LimitKind::MinLength, JsonValue::String(s)) => Some(s.as_str().unicode_len() as u64),
            (LimitKind::MaxProperties, JsonValue::Object(es)) => Some(es.len() as u64),
            (LimitKind::MinProperties, JsonValue::Object(es)) => Some(es.len() as u64),
            _ => None,
        }
    }

    pub fn is_valid(&self, instance: &JsonValue) -> (r: bool)
        ensures
            r == limit_holds(self.kind, self.limit as nat, *instance),
    {
        match self.count(instance) {
            Some(c) => match self.kind {
                LimitKind::MaxItems | LimitKind::MaxLength | LimitKind::MaxProperties => c
                    <= self.limit,
                _ => c >= self.limit,
            },
            None => true,
        }
    }

    /// At most one error: the one that names the keyword and its limit.
    pub fn validate(&self, instance: &JsonValue) -> (r: Vec<ValidationError>)
        ensures
            r@.len() == if limit_holds(self.kind, self.limit as nat, *instance) {
                0int
            } else {
                1int
            },
            r@.len() == 1 ==> r@[0].instance_path@ == self.instance_path@ && same(
                r@[0].instance,
                *instance,
            ) && r@[0].context == (ErrorContext::Limit { kind: self.kind, limit: self.limit }),
    {
        let mut errors: Vec<ValidationError> = Vec::new();
        if !self.is_valid(instance) {
            errors.push(
                ValidationError {
                    instance_path: copy_path(&self.instance_path),
                    instance: instance.deep_copy(),
                    context: ErrorContext::Limit { kind: self.kind, limit: self.limit },
                },
            );
        }
        errors
    }

    /// `"<keyword>: <limit>"`.
    pub fn describe(&self) -> (r: String)
        ensures
            r@ == keyword_of(self.kind) + ": "@ + decimal(self.limit as nat),
    {
        let mut out = match self.kind {
            LimitKind::MaxItems => "maxItems".to_owned(),
            LimitKind::MinItems => "minItems".to_owned(),
            LimitKind::MaxLength => "maxLength".to_owned(),
            LimitKind::MinLength => "minLength".to_owned(),
            LimitKind::MaxProperties => "maxProperties".to_owned(),
            LimitKind::MinProperties => "minProperties".to_owned(),
        };
        out.append(": ");
        let n = render_u64(self.limit);
        out.append(n.as_str());
        proof {
            reveal_strlit("maxItems");
            reveal_strlit("minItems");
            reveal_strlit("maxLength");
            reveal_strlit("minLength");
            reveal_strlit("maxProperties");
            reveal_strlit("minProperties");
            reveal_strlit(": ");
        }
        out
    }
}

/// Compiles the keyword `kind` at the context's current instance path.
pub fn compile(kind: LimitKind, schema: &JsonValue, context: &CompilationContext) -> (r: Result<
    LimitValidator,
    CompilationError,
>)
    ensures
        r is Ok <==> as_u64_spec(*schema) is Some,
        r is Ok ==> r->Ok_0.kind == kind && r->Ok_0.limit == as_u64_spec(*schema)->Some_0
            && r->Ok_0.instance_path@ == context.curr_instance_path@,
{
    LimitValidator::compile(kind, schema, copy_path(&context.curr_instance_path))
}

} // verus!
