use crate::context::{copy_path, CompilationContext};
use crate::error::{CompilationError, ErrorContext, ValidationError};
use crate::value::{json_eq, json_equal, same, JsonValue};
use vstd::prelude::*;

verus! {

/// The instance is structurally equal to at least one option.
pub open spec fn enum_holds(items: Seq<JsonValue>, instance: JsonValue) -> bool {
    exists|i: int| 0 <= i < items.len() && json_eq(instance, #[trigger] items[i])
}

/// A compiled `enum` keyword: the options, and the fragment they came from.
pub struct EnumValidator {
    pub options: JsonValue,
    pub items: Vec<JsonValue>,
    pub instance_path: Vec<String>,
}

impl EnumValidator {
    /// Compiles from an array of candidate values; any other fragment is
    /// malformed.
    pub fn compile(schema: &JsonValue, instance_path: Vec<String>) -> (r: Result<
        EnumValidator,
        CompilationError,
    >)
        ensures
            r is Ok <==> schema is Array,
            r is Ok ==> {
                let items = schema->Array_0@;
                &&& same(r->Ok_0.options, *schema)
                &&& r->Ok_0.items@.len() == items.len()
                &&& forall|i: int|
                    0 <= i < items.len() ==> same(#[trigger] r->Ok_0.items@[i], items[i])
                &&& r->Ok_0.instance_path@ == instance_path@
            },
    {
        match schema {
            JsonValue::Array(items) => {
                let mut copied: Vec<JsonValue> = Vec::new();
                let mut i: usize = 0;
                while i < items.len()
                    invariant
                        i <= items.len(),
                        copied@.len() == i,
                        forall|t: int| 0 <= t < i ==> same(#[trigger] copied@[t], items@[t]),
                    decreases items.len() - i,
                {
                    copied.push(items[i].deep_copy());
                    i = i + 1;
                }
                Ok(EnumValidator { options: schema.deep_copy(), items: copied, instance_path })
            },
            _ => Err(CompilationError::SchemaError),
        }
    }

    pub fn is_valid(&self, instance: &JsonValue) -> (r: bool)
        ensures
            r == enum_holds(self.items@, *instance),
    {
        let mut i: usize = 0;
        while i < self.items.len()
            invariant
                i <= self.items.len(),
                forall|t: int| 0 <= t < i ==> !json_eq(*instance, #[trigger] self.items@[t]),
            decreases self.items.len() - i,
        {
            if json_equal(instance, &self.items[i]) {
                return true;
            }
            i = i + 1;
        }
        false
    }

    /// At most one error, carrying the instance and the full list of options.
    pub fn validate(&self, instance: &JsonValue) -> (r: Vec<ValidationError>)
        ensures
            r@.len() == if enum_holds(self.items@, *instance) {
                0int
            } else {
                1int
            },
            r@.len() == 1 ==> {
                &&& r@[0].instance_path@ == self.instance_path@
                &&& same(r@[0].instance, *instance)
                &&& r@[0].context is Enum
                &&& same(r@[0].context->Enum_options, self.options)
            },
    {
        let mut errors: Vec<ValidationError> = Vec::new();
        if !self.is_valid(instance) {
            errors.push(
                ValidationError {
                    instance_path: copy_path(&self.instance_path),
                    instance: instance.deep_copy(),
                    context: ErrorContext::Enum { options: self.options.deep_copy() },
                },
            );
        }
        errors
    }
}

/// Compiles `enum` at the context's current instance path.
pub fn compile(schema: &JsonValue, context: &CompilationContext) -> (r: Result<
    EnumValidator,
    CompilationError,
>)
    ensures
        r is Ok <==> schema is Array,
        r is Ok ==> {
            let items = schema->Array_0@;
            &&& same(r->Ok_0.options, *schema)
            &&& r->Ok_0.items@.len() == items.len()
            &&& forall|i: int|
                0 <= i < items.len() ==> same(#[trigger] r->Ok_0.items@[i], items[i])
            &&& r->Ok_0.instance_path@ == context.curr_instance_path@
        },
{
    EnumValidator::compile(schema, copy_path(&context.curr_instance_path))
}

} // verus!
