use crate::context::{copy_path, CompilationContext};
use crate::error::{CompilationError, ErrorContext, ValidationError};
use crate::text::{join_comma, join_with_comma};
use crate::value::{contains_key, has_key, same, JsonValue};
use vstd::prelude::*;
use vstd::string::*;

verus! {

/// Every item of the array is a string.
pub open spec fn all_strings(items: Seq<JsonValue>) -> bool {
    forall|i: int| 0 <= i < items.len() ==> (#[trigger] items[i]) is String
}

/// Every named property is a key of the object; true of any other value.
pub open spec fn required_holds(required: Seq<String>, instance: JsonValue) -> bool {
    match instance {
        JsonValue::Object(es) => forall|i: int|
            0 <= i < required.len() ==> has_key(es@, (#[trigger] required[i])@),
        _ => true,
    }
}

/// `k` is the first of the required names that the object lacks.
pub open spec fn first_missing(required: Seq<String>, es: Seq<(String, JsonValue)>, k: int) -> bool {
    &&& 0 <= k < required.len()
    &&& !has_key(es, required[k]@)
    &&& forall|m: int| 0 <= m < k ==> has_key(es, (#[trigger] required[m])@)
}

/// A compiled `required` keyword.
pub struct RequiredValidator {
    pub required: Vec<String>,
    pub instance_path: Vec<String>,
}

impl RequiredValidator {
    /// Compiles from an array of property names; any other fragment is
    /// malformed.
    #[verifier::loop_isolation(false)]
    pub fn compile(schema: &JsonValue, instance_path: Vec<String>) -> (r: Result<
        RequiredValidator,
        CompilationError,
    >)
        ensures
            r is Ok <==> (schema is Array && all_strings(schema->Array_0@)),
            r is Ok ==> {
                let items = schema->Array_0@;
                &&& r->Ok_0.required@.len() == items.len()
                &&& forall|i: int|
                    0 <= i < items.len() ==> (#[trigger] r->Ok_0.required@[i])@
                        == items[i]->String_0@
                &&& r->Ok_0.instance_path@ == instance_path@
            },
    {
        match schema {
            JsonValue::Array(items) => {
                let mut required: Vec<String> = Vec::new();
                let mut i: usize = 0;
                while i < items.len()
                    invariant
                        i <= items.len(),
                        required@.len() == i,
                        all_strings(items@.subrange(0, i as int)),
                        forall|t: int|
                            0 <= t < i ==> (#[trigger] required@[t])@ == items@[t]->String_0@,
                    decreases items.len() - i,
                {
                    match &items[i] {
                        JsonValue::String(s) => required.push(s.clone()),
                        _ => {
                            proof {
                                assert(!(items@[i as int] is String));
                            }
                            return Err(CompilationError::SchemaError);
                        },
                    }
                    proof {
                        assert forall|t: int| 0 <= t < i + 1 implies (#[trigger] items@.subrange(
                            0,
                            i + 1,
                        )[t]) is String by {
                            if t < i {
                                assert(items@.subrange(0, i as int)[t] == items@[t]);
                            }
                        }
                    }
                    i = i + 1;
                }
                proof {
                    assert(items@.subrange(0, items.len() as int) =~= items@);
                }
                Ok(RequiredValidator { required, instance_path })
            },
            _ => Err(CompilationError::SchemaError),
        }
    }

    pub fn is_valid(&self, instance: &JsonValue) -> (r: bool)
        ensures
            r == required_holds(self.required@, *instance),
    {
        match instance {
            JsonValue::Object(es) => {
                let mut i: usize = 0;
                while i < self.required.len()
                    invariant
                        i <= self.required.len(),
                        *instance == JsonValue::Object(*es),
                        forall|t: int|
                            0 <= t < i ==> has_key(es@, (#[trigger] self.required@[t])@),
                    decreases self.required.len() - i,
                {
                    if !contains_key(es, &self.required[i]) {
                        return false;
                    }
                    i = i + 1;
                }
                true
            },
            _ => true,
        }
    }

    /// At most one error, for the first missing property in declared order.
    pub fn validate(&self, instance: &JsonValue) -> (r: Vec<ValidationError>)
        ensures
            r@.len() == if required_holds(self.required@, *instance) {
                0int
            } else {
                1int
            },
            r@.len() == 1 ==> {
                &&& r@[0].instance_path@ == self.instance_path@
                &&& same(r@[0].instance, *instance)
                &&& r@[0].context is Required
                &&& exists|k: int|
                    first_missing(self.required@, instance->Object_0@, k)
                        && r@[0].context->Required_property@ == self.required@[k]@
            },
    {
        let mut errors: Vec<ValidationError> = Vec::new();
        match instance {
            JsonValue::Object(es) => {
                let mut i: usize = 0;
                while i < self.required.len()
                    invariant
                        i <= self.required.len(),
                        *instance == JsonValue::Object(*es),
                        errors@.len() == 0,
                        forall|t: int|
                            0 <= t < i ==> has_key(es@, (#[trigger] self.required@[t])@),
                    decreases self.required.len() - i,
                {
                    if !contains_key(es, &self.required[i]) {
                        errors.push(
                            ValidationError {
                                instance_path: copy_path(&self.instance_path),
                                instance: instance.deep_copy(),
                                context: ErrorContext::Required {
                                    property: self.required[i].clone(),
                                },
                            },
                        );
                        proof {
                            assert(first_missing(self.required@, es@, i as int));
                        }
                        return errors;
                    }
                    i = i + 1;
                }
            },
            _ => {},
        }
        errors
    }

    /// `"required: [<names joined by ", ">]"`.
    pub fn describe(&self) -> (r: String)
        ensures
            r@ == "required: ["@ + join_comma(self.required@.map_values(|s: String| s@)) + "]"@,
    {
        let mut out = "required: [".to_owned();
        let names = join_with_comma(&self.required);
        out.append(names.as_str());
        out.append("]");
        proof {
            reveal_strlit("required: [");
            reveal_strlit("]");
        }
        out
    }
}

/// Compiles `required` at the context's current instance path.
pub fn compile(schema: &JsonValue, context: &CompilationContext) -> (r: Result<
    RequiredValidator,
    CompilationError,
>)
    ensures
        r is Ok <==> (schema is Array && all_strings(schema->Array_0@)),
        r is Ok ==> {
            let items = schema->Array_0@;
            &&& r->Ok_0.required@.len() == items.len()
            &&& forall|i: int|
                0 <= i < items.len() ==> (#[trigger] r->Ok_0.required@[i])@ == items[i]->String_0@
            &&& r->Ok_0.instance_path@ == context.curr_instance_path@
        },
{
    RequiredValidator::compile(schema, copy_path(&context.curr_instance_path))
}

} // verus!
