use crate::context::{copy_path, CompilationContext};
use crate::error::{Bound, CompilationError, ErrorContext, ValidationError};
use crate::number::{int_value, is_int, lemma_int_order, num_gt, num_lt, Number};
use crate::text::{decimal, render_u64};
use crate::value::{same, JsonValue};
use vstd::prelude::*;
use vstd::string::*;

verus! {

/// The number in the form a parser prefers for it: unsigned where it is a
/// non-negative integer, else signed, else float.
pub open spec fn native_form(n: Number) -> Number {
    match n {
        Number::NegInt(i) => if i >= 0 {
            Number::PosInt(i as u64)
        } else {
            n
        },
        _ => n,
    }
}

/// The instance lies strictly beyond the limit on the bound's side; true of
/// any value that is not a number.
pub open spec fn exclusive_holds(bound: Bound, limit: Number, instance: JsonValue) -> bool {
    match instance {
        JsonValue::Number(x) => match bound {
            Bound::Minimum => num_lt(limit, x),
            Bound::Maximum => num_lt(x, limit),
        },
        _ => true,
    }
}

pub open spec fn bound_keyword(bound: Bound) -> Seq<char> {
    match bound {
        Bound::Minimum => "exclusiveMinimum"@,
        Bound::Maximum => "exclusiveMaximum"@,
    }
}

/// An integer limit in decimal, with a leading `-` where it is negative.
pub open spec fn integer_text(n: Number) -> Seq<char> {
    match n {
        Number::PosInt(u) => decimal(u as nat),
        Number::NegInt(i) => if i < 0 {
            "-"@ + decimal((-i) as nat)
        } else {
            decimal(i as nat)
        },
        Number::Float(_) => Seq::empty(),
    }
}

/// A compiled `exclusiveMinimum` or `exclusiveMaximum`, with its limit kept
/// in the native form it was written in.
pub struct ExclusiveValidator {
    pub bound: Bound,
    pub limit: Number,
    pub instance_path: Vec<String>,
}

impl ExclusiveValidator {
    /// Compiles from a number; any other fragment is malformed.
    pub fn compile(bound: Bound, schema: &JsonValue, instance_path: Vec<String>) -> (r: Result<
        ExclusiveValidator,
        CompilationError,
    >)
        ensures
            r is Ok <==> schema is Number,
            r is Ok ==> r->Ok_0.bound == bound && r->Ok_0.limit == native_form(schema->Number_0)
                && r->Ok_0.instance_path@ == instance_path@,
    {
        match schema {
            JsonValue::Number(n) => {
                let limit = match n {
                    Number::NegInt(i) => if *i >= 0 {
                        Number::PosInt(*i as u64)
                    } else {
                        *n
                    },
                    _ => *n,
                };
                Ok(ExclusiveValidator { bound, limit, instance_path })
            },
            _ => Err(CompilationError::SchemaError),
        }
    }

    pub fn is_valid(&self, instance: &JsonValue) -> (r: bool)
        ensures
            r == exclusive_holds(self.bound, self.limit, *instance),
    {
        match instance {
            JsonValue::Number(x) => match self.bound {
                Bound::Minimum => num_gt(x, &self.limit),
                Bound::Maximum => num_gt(&self.limit, x),
            },
            _ => true,
        }
    }

    /// At most one error, carrying the limit in its native form.
    pub fn validate(&self, instance: &JsonValue) -> (r: Vec<ValidationError>)
        ensures
            r@.len() == if exclusive_holds(self.bound, self.limit, *instance) {
                0int
            } else {
                1int
            },
            r@.len() == 1 ==> r@[0].instance_path@ == self.instance_path@ && same(
                r@[0].instance,
                *instance,
            ) && r@[0].context == (ErrorContext::Exclusive { bound: self.bound, threshold: self.limit }),
    {
        let mut errors: Vec<ValidationError> = Vec::new();
        if !self.is_valid(instance) {
            errors.push(
                ValidationError {
                    instance_path: copy_path(&self.instance_path),
                    instance: instance.deep_copy(),
                    context: ErrorContext::Exclusive { bound: self.bound, threshold: self.limit },
                },
            );
        }
        errors
    }

    /// `"<keyword>: <limit>"` for an integer limit; `None` for a float limit,
    /// whose decimal rendering is left to the caller.
    pub fn describe(&self) -> (r: Option<String>)
        ensures
            is_int(self.limit) <==> r is Some,
            r is Some ==> r->Some_0@ == bound_keyword(self.bound) + ": "@ + integer_text(self.limit),
    {
        let mut out = match self.bound {
            Bound::Minimum => "exclusiveMinimum: ".to_owned(),
            Bound::Maximum => "exclusiveMaximum: ".to_owned(),
        };
        proof {
            reveal_strlit("exclusiveMinimum: ");
            reveal_strlit("exclusiveMaximum: ");
            reveal_strlit("exclusiveMinimum");
            reveal_strlit("exclusiveMaximum");
            reveal_strlit(": ");
            reveal_strlit("-");
        }
        match self.limit {
            Number::PosInt(u) => {
                let digits = render_u64(u);
                out.append(digits.as_str());
            },
            Number::NegInt(i) => {
                if i < 0 {
                    out.append("-");
                    let m: u64 = if i == i64::MIN {
                        0x8000_0000_0000_0000
                    } else {
                        (-i) as u64
                    };
                    let digits = render_u64(m);
                    out.append(digits.as_str());
                } else {
                    let digits = render_u64(i as u64);
                    out.append(digits.as_str());
                }
            },
            Number::Float(_) => {
                return None;
            },
        }
        Some(out)
    }
}

/// Compiles `exclusiveMinimum` or `exclusiveMaximum` at the context's
/// current instance path.
pub fn compile(bound: Bound, schema: &JsonValue, context: &CompilationContext) -> (r: Result<
    ExclusiveValidator,
    CompilationError,
>)
    ensures
        r is Ok <==> schema is Number,
        r is Ok ==> r->Ok_0.bound == bound && r->Ok_0.limit == native_form(schema->Number_0)
            && r->Ok_0.instance_path@ == context.curr_instance_path@,
{
    ExclusiveValidator::compile(bound, schema, copy_path(&context.curr_instance_path))
}

/// For integer limits and integer instances, whatever their native forms,
/// the verdict is the exact comparison of the two integers.
pub proof fn lemma_exclusive_exact(bound: Bound, limit: Number, x: Number)
    requires
        is_int(limit),
        is_int(x),
    ensures
        exclusive_holds(bound, limit, JsonValue::Number(x)) == match bound {
            Bound::Minimum => int_value(x) > int_value(limit),
            Bound::Maximum => int_value(x) < int_value(limit),
        },
{
    lemma_int_order(limit, x);
    lemma_int_order(x, limit);
}

} // verus!
