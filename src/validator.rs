use crate::context::{copy_path, CompilationContext};
use crate::enumeration::{enum_holds, EnumValidator};
use crate::error::{Bound, CompilationError, ErrorContext, ValidationError};
use crate::exclusive::{
    bound_keyword, exclusive_holds, integer_text, native_form, ExclusiveValidator,
};
use crate::limits::{as_u64_spec, keyword_of, limit_holds, LimitKind, LimitValidator};
use crate::number::is_int;
use crate::required::{all_strings, first_missing, required_holds, RequiredValidator};
use crate::text::{decimal, join_comma, join_with_comma};
use crate::value::{has_key, json_eq, lemma_json_eq_same, same, JsonValue};
use vstd::prelude::*;

verus! {

broadcast use vstd::std_specs::vec::group_vec_axioms;

/// One node of a compiled validator tree.
pub enum Validator {
    Limit(LimitValidator),
    Required(RequiredValidator),
    Enum(EnumValidator),
    Exclusive(ExclusiveValidator),
    Not(NotValidator),
}

/// A compiled `not`: the negated sub-tree, and the fragment it came from.
pub struct NotValidator {
    pub original: JsonValue,
    pub validators: Vec<Validator>,
    pub instance_path: Vec<String>,
}

/// Whether the validator accepts the instance.
pub open spec fn valid(v: Validator, instance: JsonValue) -> bool
    decreases v,
{
    match v {
        Validator::Limit(l) => limit_holds(l.kind, l.limit as nat, instance),
        Validator::Required(r) => required_holds(r.required@, instance),
        Validator::Enum(e) => enum_holds(e.items@, instance),
        Validator::Exclusive(x) => exclusive_holds(x.bound, x.limit, instance),
        Validator::Not(n) => !(forall|i: int|
            0 <= i < n.validators@.len() ==> valid(#[trigger] n.validators@[i], instance)),
    }
}

/// The instance path that a validator captured when it was compiled.
pub open spec fn path_of(v: Validator) -> Seq<String> {
    match v {
        Validator::Limit(l) => l.instance_path@,
        Validator::Required(q) => q.instance_path@,
        Validator::Enum(e) => e.instance_path@,
        Validator::Exclusive(x) => x.instance_path@,
        Validator::Not(n) => n.instance_path@,
    }
}

/// How many of the validators reject the instance.
pub open spec fn rejections(vs: Seq<Validator>, instance: JsonValue) -> nat
    decreases vs.len(),
{
    if vs.len() == 0 {
        0
    } else {
        rejections(vs.drop_last(), instance) + if valid(vs.last(), instance) {
            0nat
        } else {
            1nat
        }
    }
}

/// Sibling validators accept together: each of them accepts.
pub open spec fn all_valid(vs: Seq<Validator>, instance: JsonValue) -> bool {
    forall|i: int| 0 <= i < vs.len() ==> valid(#[trigger] vs[i], instance)
}

/// Decides `all_valid(vs@, instance)`, stopping at the first rejection.
pub fn is_valid_all(vs: &Vec<Validator>, instance: &JsonValue) -> (r: bool)
    ensures
        r == all_valid(vs@, *instance),
    decreases vs,
{
    let mut i: usize = 0;
    while i < vs.len()
        invariant
            i <= vs.len(),
            forall|t: int| 0 <= t < i ==> valid(#[trigger] vs@[t], *instance),
        decreases vs.len() - i,
    {
        proof {
            assert(decreases_to!(vs => vs[i as int]));
        }
        if !vs[i].is_valid(instance) {
            return false;
        }
        i = i + 1;
    }
    true
}

impl Validator {
    pub fn is_valid(&self, instance: &JsonValue) -> (r: bool)
        ensures
            r == valid(*self, *instance),
        decreases self,
    {
        match self {
            Validator::Limit(l) => l.is_valid(instance),
            Validator::Required(r) => r.is_valid(instance),
            Validator::Enum(e) => e.is_valid(instance),
            Validator::Exclusive(x) => x.is_valid(instance),
            Validator::Not(n) => {
                proof {
                    assert(decreases_to!(*self => n.validators));
                }
                !is_valid_all(&n.validators, instance)
            },
        }
    }

    /// The violations: none where the validator accepts, exactly one where
    /// it rejects, carrying the validator's path, a copy of the instance and
    /// the keyword's context.
    pub fn validate(&self, instance: &JsonValue) -> (r: Vec<ValidationError>)
        ensures
            r@.len() == if valid(*self, *instance) {
                0int
            } else {
                1int
            },
            r@.len() == 1 ==> {
                &&& same(r@[0].instance, *instance)
                &&& r@[0].instance_path@ == path_of(*self)
                &&& match *self {
                    Validator::Limit(l) => r@[0].context == (ErrorContext::Limit {
                        kind: l.kind,
                        limit: l.limit,
                    }),
                    Validator::Required(q) => r@[0].context is Required && exists|k: int|
                        first_missing(q.required@, instance->Object_0@, k)
                            && r@[0].context->Required_property@ == q.required@[k]@,
                    Validator::Enum(e) => r@[0].context is Enum && same(
                        r@[0].context->Enum_options,
                        e.options,
                    ),
                    Validator::Exclusive(x) => r@[0].context == (ErrorContext::Exclusive {
                        bound: x.bound,
                        threshold: x.limit,
                    }),
                    Validator::Not(n) => r@[0].context is Not && same(
                        r@[0].context->Not_schema,
                        n.original,
                    ),
                }
            },
    {
        match self {
            Validator::Limit(l) => l.validate(instance),
            Validator::Required(r) => r.validate(instance),
            Validator::Enum(e) => e.validate(instance),
            Validator::Exclusive(x) => x.validate(instance),
            Validator::Not(n) => n.validate(instance),
        }
    }
}

impl NotValidator {
    pub fn is_valid(&self, instance: &JsonValue) -> (r: bool)
        ensures
            r == !all_valid(self.validators@, *instance),
    {
        !is_valid_all(&self.validators, instance)
    }

    /// Exactly one error where the whole sub-tree accepts; none otherwise.
    pub fn validate(&self, instance: &JsonValue) -> (r: Vec<ValidationError>)
        ensures
            r@.len() == if all_valid(self.validators@, *instance) {
                1int
            } else {
                0int
            },
            r@.len() == 1 ==> {
                &&& r@[0].instance_path@ == self.instance_path@
                &&& same(r@[0].instance, *instance)
                &&& r@[0].context is Not
                &&& same(r@[0].context->Not_schema, self.original)
            },
    {
        let mut errors: Vec<ValidationError> = Vec::new();
        if is_valid_all(&self.validators, instance) {
            errors.push(
                ValidationError {
                    instance_path: copy_path(&self.instance_path),
                    instance: instance.deep_copy(),
                    context: ErrorContext::Not { schema: self.original.deep_copy() },
                },
            );
        }
        errors
    }

    /// Compiles the sub-schema with the same context: negation moves through
    /// the schema, not through the instance.
    pub fn compile(schema: &JsonValue, context: &CompilationContext) -> (r: Result<
        NotValidator,
        CompilationError,
    >)
        ensures
            r is Ok <==> schema_ok(*schema),
            r is Ok ==> same(r->Ok_0.original, *schema) && r->Ok_0.instance_path@
                == context.curr_instance_path@,
            r is Ok ==> forall|instance: JsonValue|
                all_valid(r->Ok_0.validators@, instance) == schema_accepts(*schema, instance),
        decreases schema, 1int,
    {
        let validators = match compile_validators(schema, context) {
            Ok(vs) => vs,
            Err(e) => {
                return Err(e);
            },
        };
        Ok(
            NotValidator {
                original: schema.deep_copy(),
                validators,
                instance_path: copy_path(&context.curr_instance_path),
            },
        )
    }
}

/// The stable text of a validator: `"<keyword>: <value>"`; `None` where the
/// value is a JSON document of its own (the options of `enum`) or a float,
/// whose rendering is left to the caller.
pub open spec fn describe_spec(v: Validator) -> Option<Seq<char>>
    decreases v,
{
    match v {
        Validator::Limit(l) => Some(keyword_of(l.kind) + ": "@ + decimal(l.limit as nat)),
        Validator::Required(r) => Some(
            "required: ["@ + join_comma(r.required@.map_values(|s: String| s@)) + "]"@,
        ),
        Validator::Enum(_) => None,
        Validator::Exclusive(x) => if is_int(x.limit) {
            Some(bound_keyword(x.bound) + ": "@ + integer_text(x.limit))
        } else {
            None
        },
        Validator::Not(n) => {
            match texts_of(n.validators@) {
                Some(texts) => Some("not: {"@ + join_comma(texts) + "}"@),
                None => None,
            }
        },
    }
}

/// The texts of a sequence of validators, where each of them has one.
pub open spec fn texts_of(vs: Seq<Validator>) -> Option<Seq<Seq<char>>>
    decreases vs,
{
    if vs.len() == 0 {
        Some(Seq::empty())
    } else {
        match (texts_of(vs.subrange(0, vs.len() - 1)), describe_spec(vs[vs.len() - 1])) {
            (Some(ts), Some(t)) => Some(ts.push(t)),
            _ => None,
        }
    }
}

impl Validator {
    /// The validator's stable text, as `describe_spec` gives it.
    pub fn describe(&self) -> (r: Option<String>)
        ensures
            r is Some == describe_spec(*self) is Some,
            r is Some ==> r->Some_0@ == describe_spec(*self)->Some_0,
        decreases self,
    {
        proof {
            reveal_strlit("not: {");
            reveal_strlit("}");
        }
        match self {
            Validator::Limit(l) => Some(l.describe()),
            Validator::Required(r) => Some(r.describe()),
            Validator::Enum(_) => None,
            Validator::Exclusive(x) => x.describe(),
            Validator::Not(n) => {
                let ghost vs = n.validators@;
                let mut parts: Vec<String> = Vec::new();
                let mut i: usize = 0;
                while i < n.validators.len()
                    invariant
                        *self == Validator::Not(*n),
                        vs == n.validators@,
                        i <= vs.len(),
                        texts_of(vs.subrange(0, i as int)) == Some(
                            parts@.map_values(|s: String| s@),
                        ),
                    decreases vs.len() - i,
                {
                    proof {
                        assert(decreases_to!(*self => n.validators));
                        assert(decreases_to!(n.validators => n.validators[i as int]));
                    }
                    match n.validators[i].describe() {
                        Some(text) => {
                            let ghost before = parts@;
                            parts.push(text);
                            proof {
                                let sub = vs.subrange(0, i + 1);
                                assert(sub.subrange(0, sub.len() - 1) =~= vs.subrange(0, i as int));
                                assert(parts@.map_values(|s: String| s@) =~= before.map_values(
                                    |s: String| s@,
                                ).push(text@));
                            }
                        },
                        None => {
                            proof {
                                lemma_texts_none(vs, i as int);
                                assert(texts_of(vs.subrange(0, vs.len() as int)) is None);
                                assert(vs.subrange(0, vs.len() as int) =~= vs);
                            }
                            return None;
                        },
                    }
                    i = i + 1;
                }
                let mut out = "not: {".to_owned();
                let inner = join_with_comma(&parts);
                out.append(inner.as_str());
                out.append("}");
                proof {
                    assert(vs.subrange(0, vs.len() as int) =~= vs);
                }
                Some(out)
            },
        }
    }
}

/// Where one validator of a sequence has no text, the sequence has none
/// from there on.
proof fn lemma_texts_none(vs: Seq<Validator>, i: int)
    requires
        0 <= i < vs.len(),
        describe_spec(vs[i]) is None,
    ensures
        forall|j: int| i < j <= vs.len() ==> #[trigger] texts_of(vs.subrange(0, j)) is None,
{
    assert forall|j: int| i < j <= vs.len() implies #[trigger] texts_of(vs.subrange(0, j))
        is None by {
        lemma_texts_none_prefix(vs, i, j);
    }
}

proof fn lemma_texts_none_prefix(vs: Seq<Validator>, i: int, j: int)
    requires
        0 <= i < j <= vs.len(),
        describe_spec(vs[i]) is None,
    ensures
        texts_of(vs.subrange(0, j)) is None,
    decreases j,
{
    let sub = vs.subrange(0, j);
    assert(sub.subrange(0, sub.len() - 1) =~= vs.subrange(0, j - 1));
    if j - 1 > i {
        lemma_texts_none_prefix(vs, i, j - 1);
    }
}

/// A compiled schema object: its validators, which accept an instance
/// together.
pub struct Schema {
    pub validators: Vec<Validator>,
}

impl Schema {
    /// Compiles a schema object at the root of the instance.
    pub fn compile(schema: &JsonValue) -> (r: Result<Schema, CompilationError>)
        ensures
            r is Ok <==> schema_ok(*schema),
            r is Ok ==> r->Ok_0.validators@.len() <= schema->Object_0@.len(),
            r is Ok ==> forall|instance: JsonValue|
                all_valid(r->Ok_0.validators@, instance) == schema_accepts(*schema, instance),
    {
        let context = CompilationContext::new();
        match compile_validators(schema, &context) {
            Ok(validators) => Ok(Schema { validators }),
            Err(e) => Err(e),
        }
    }

    pub fn is_valid(&self, instance: &JsonValue) -> (r: bool)
        ensures
            r == all_valid(self.validators@, *instance),
    {
        is_valid_all(&self.validators, instance)
    }

    /// The validators' errors concatenated in declaration order: one for
    /// each validator that rejects, none exactly where the schema accepts.
    pub fn validate(&self, instance: &JsonValue) -> (r: Vec<ValidationError>)
        ensures
            (r@.len() == 0) == all_valid(self.validators@, *instance),
            r@.len() == rejections(self.validators@, *instance),
            r@.len() <= self.validators@.len(),
    {
        let mut errors: Vec<ValidationError> = Vec::new();
        let mut i: usize = 0;
        while i < self.validators.len()
            invariant
                i <= self.validators.len(),
                errors@.len() <= i,
                errors@.len() == rejections(self.validators@.subrange(0, i as int), *instance),
                (errors@.len() == 0) == (forall|t: int|
                    0 <= t < i ==> valid(#[trigger] self.validators@[t], *instance)),
            decreases self.validators.len() - i,
        {
            proof {
                let sub = self.validators@.subrange(0, i + 1);
                assert(sub.drop_last() =~= self.validators@.subrange(0, i as int));
                assert(sub.last() == self.validators@[i as int]);
            }
            let mut found = self.validators[i].validate(instance);
            errors.append(&mut found);
            proof {
                if errors@.len() == 0 {
                    assert forall|t: int| 0 <= t < i + 1 implies valid(
                        #[trigger] self.validators@[t],
                        *instance,
                    ) by {}
                }
            }
            i = i + 1;
        }
        proof {
            assert(self.validators@.subrange(0, i as int) =~= self.validators@);
        }
        errors
    }
}

/// Negation: `not` accepts exactly the instances that its sub-tree, taken
/// as the conjunction of its validators, rejects, whatever those validators
/// are, composite ones included.
pub proof fn lemma_not_negates(n: NotValidator, instance: JsonValue)
    ensures
        valid(Validator::Not(n), instance) == !all_valid(n.validators@, instance),
{
}

/// The text of a validator depends on its compiled state alone: two
/// validators in the same state have the same text.
pub proof fn lemma_describe_stable(a: Validator, b: Validator)
    requires
        a == b,
    ensures
        describe_spec(a) == describe_spec(b),
{
}

/// The keywords this library compiles.
pub open spec fn known_keyword(k: Seq<char>) -> bool {
    ||| k == "maxItems"@
    ||| k == "minItems"@
    ||| k == "maxLength"@
    ||| k == "minLength"@
    ||| k == "maxProperties"@
    ||| k == "minProperties"@
    ||| k == "required"@
    ||| k == "enum"@
    ||| k == "exclusiveMinimum"@
    ||| k == "exclusiveMaximum"@
    ||| k == "not"@
}

/// The size keyword that `k` names, if any.
pub open spec fn limit_kind_of(k: Seq<char>) -> Option<LimitKind> {
    if k == "maxItems"@ {
        Some(LimitKind::MaxItems)
    } else if k == "minItems"@ {
        Some(LimitKind::MinItems)
    } else if k == "maxLength"@ {
        Some(LimitKind::MaxLength)
    } else if k == "minLength"@ {
        Some(LimitKind::MinLength)
    } else if k == "maxProperties"@ {
        Some(LimitKind::MaxProperties)
    } else if k == "minProperties"@ {
        Some(LimitKind::MinProperties)
    } else {
        None
    }
}

/// The fragment is well formed for the keyword `k`: a non-negative integer
/// for a size keyword, an array of strings for `required`, an array for
/// `enum`, a number for an exclusive bound, a well-formed schema for `not`.
/// Any fragment is well formed for a keyword this library does not know.
pub open spec fn keyword_ok(k: Seq<char>, fragment: JsonValue) -> bool
    decreases fragment, 1int,
{
    if limit_kind_of(k) is Some {
        as_u64_spec(fragment) is Some
    } else if k == "required"@ {
        fragment is Array && all_strings(fragment->Array_0@)
    } else if k == "enum"@ {
        fragment is Array
    } else if k == "exclusiveMinimum"@ || k == "exclusiveMaximum"@ {
        fragment is Number
    } else if k == "not"@ {
        schema_ok(fragment)
    } else {
        true
    }
}

/// The schema is an object whose every keyword is well formed.
pub open spec fn schema_ok(schema: JsonValue) -> bool
    decreases schema, 0int,
{
    match schema {
        JsonValue::Object(es) => forall|i: int|
            0 <= i < es@.len() ==> keyword_ok((#[trigger] es@[i]).0@, es@[i].1),
        _ => false,
    }
}

/// What the keyword `k` with its fragment accepts, read off the fragment
/// itself: the size bound, the named properties, structural equality with
/// one of the fragment's items, the strict bound in the limit's native form,
/// the negation of the sub-schema. A keyword this library does not know
/// accepts everything.
pub open spec fn keyword_accepts(k: Seq<char>, fragment: JsonValue, instance: JsonValue) -> bool
    decreases fragment, 1int,
{
    if limit_kind_of(k) is Some {
        limit_holds(limit_kind_of(k)->Some_0, as_u64_spec(fragment)->Some_0 as nat, instance)
    } else if k == "required"@ {
        match instance {
            JsonValue::Object(es) => forall|i: int|
                0 <= i < fragment->Array_0@.len() ==> has_key(
                    es@,
                    (#[trigger] fragment->Array_0@[i])->String_0@,
                ),
            _ => true,
        }
    } else if k == "enum"@ {
        enum_holds(fragment->Array_0@, instance)
    } else if k == "exclusiveMinimum"@ {
        exclusive_holds(Bound::Minimum, native_form(fragment->Number_0), instance)
    } else if k == "exclusiveMaximum"@ {
        exclusive_holds(Bound::Maximum, native_form(fragment->Number_0), instance)
    } else if k == "not"@ {
        !schema_accepts(fragment, instance)
    } else {
        true
    }
}

/// The schema object accepts the instance: each of its keywords does.
pub open spec fn schema_accepts(schema: JsonValue, instance: JsonValue) -> bool
    decreases schema, 0int,
{
    match schema {
        JsonValue::Object(es) => forall|i: int|
            0 <= i < es@.len() ==> keyword_accepts((#[trigger] es@[i]).0@, es@[i].1, instance),
        _ => true,
    }
}

fn is_word(k: &String, word: &str) -> (r: bool)
    ensures
        r == (k@ == word@),
{
    *k == word.to_owned()
}

/// Compiles one keyword of a schema object: `None` where the keyword is not
/// one of this library's, else the compiled validator or the schema error.
pub fn compile_keyword(keyword: &String, fragment: &JsonValue, context: &CompilationContext) -> (r:
    Option<Result<Validator, CompilationError>>)
    ensures
        r is None <==> !known_keyword(keyword@),
        r is Some ==> (r->Some_0 is Ok <==> keyword_ok(keyword@, *fragment)),
        r is Some && r->Some_0 is Ok ==> forall|instance: JsonValue|
            valid(r->Some_0->Ok_0, instance) == keyword_accepts(keyword@, *fragment, instance),
        limit_kind_of(keyword@) is Some ==> {
            &&& r is Some
            &&& (r->Some_0 is Ok <==> as_u64_spec(*fragment) is Some)
            &&& r->Some_0 is Ok ==> {
                let v = r->Some_0->Ok_0;
                &&& v is Limit
                &&& v->Limit_0.kind == limit_kind_of(keyword@)->Some_0
                &&& v->Limit_0.limit == as_u64_spec(*fragment)->Some_0
                &&& v->Limit_0.instance_path@ == context.curr_instance_path@
            }
        },
        keyword@ == "required"@ ==> {
            &&& r is Some
            &&& (r->Some_0 is Ok <==> (fragment is Array && all_strings(fragment->Array_0@)))
            &&& r->Some_0 is Ok ==> {
                let v = r->Some_0->Ok_0;
                let items = fragment->Array_0@;
                &&& v is Required
                &&& v->Required_0.required@.len() == items.len()
                &&& forall|i: int|
                    0 <= i < items.len() ==> (#[trigger] v->Required_0.required@[i])@
                        == items[i]->String_0@
                &&& v->Required_0.instance_path@ == context.curr_instance_path@
            }
        },
        keyword@ == "enum"@ ==> {
            &&& r is Some
            &&& (r->Some_0 is Ok <==> fragment is Array)
            &&& r->Some_0 is Ok ==> {
                let v = r->Some_0->Ok_0;
                let items = fragment->Array_0@;
                &&& v is Enum
                &&& same(v->Enum_0.options, *fragment)
                &&& v->Enum_0.items@.len() == items.len()
                &&& forall|i: int|
                    0 <= i < items.len() ==> same(#[trigger] v->Enum_0.items@[i], items[i])
                &&& v->Enum_0.instance_path@ == context.curr_instance_path@
            }
        },
        keyword@ == "exclusiveMinimum"@ || keyword@ == "exclusiveMaximum"@ ==> {
            &&& r is Some
            &&& (r->Some_0 is Ok <==> fragment is Number)
            &&& r->Some_0 is Ok ==> {
                let v = r->Some_0->Ok_0;
                &&& v is Exclusive
                &&& v->Exclusive_0.bound == (if keyword@ == "exclusiveMinimum"@ {
                    Bound::Minimum
                } else {
                    Bound::Maximum
                })
                &&& v->Exclusive_0.limit == native_form(fragment->Number_0)
                &&& v->Exclusive_0.instance_path@ == context.curr_instance_path@
            }
        },
        keyword@ == "not"@ ==> {
            &&& r is Some
            &&& !(fragment is Object) ==> r->Some_0 is Err
            &&& r->Some_0 is Ok ==> r->Some_0->Ok_0 is Not && same(
                r->Some_0->Ok_0->Not_0.original,
                *fragment,
            )
        },
    decreases fragment, 2int,
{
    proof {
        reveal_strlit("maxItems");
        reveal_strlit("minItems");
        reveal_strlit("maxLength");
        reveal_strlit("minLength");
        reveal_strlit("maxProperties");
        reveal_strlit("minProperties");
        reveal_strlit("required");
        reveal_strlit("enum");
        reveal_strlit("exclusiveMinimum");
        reveal_strlit("exclusiveMaximum");
        reveal_strlit("not");
        // No two keywords are the same word: one position at which each pair differs.
        assert("maxItems"@[1] != "minItems"@[1]);
        assert("maxItems"@[3] != "maxLength"@[3]);
        assert("maxItems"@[1] != "minLength"@[1]);
        assert("maxItems"@[3] != "maxProperties"@[3]);
        assert("maxItems"@[1] != "minProperties"@[1]);
        assert("maxItems"@[0] != "required"@[0]);
        assert("maxItems"@[0] != "enum"@[0]);
        assert("maxItems"@[0] != "exclusiveMinimum"@[0]);
        assert("maxItems"@[0] != "exclusiveMaximum"@[0]);
        assert("maxItems"@[0] != "not"@[0]);
        assert("minItems"@[1] != "maxLength"@[1]);
        assert("minItems"@[3] != "minLength"@[3]);
        assert("minItems"@[1] != "maxProperties"@[1]);
        assert("minItems"@[3] != "minProperties"@[3]);
        assert("minItems"@[0] != "required"@[0]);
        assert("minItems"@[0] != "enum"@[0]);
        assert("minItems"@[0] != "exclusiveMinimum"@[0]);
        assert("minItems"@[0] != "exclusiveMaximum"@[0]);
        assert("minItems"@[0] != "not"@[0]);
        assert("maxLength"@[1] != "minLength"@[1]);
        assert("maxLength"@[3] != "maxProperties"@[3]);
        assert("maxLength"@[1] != "minProperties"@[1]);
        assert("maxLength"@[0] != "required"@[0]);
        assert("maxLength"@[0] != "enum"@[0]);
        assert("maxLength"@[0] != "exclusiveMinimum"@[0]);
        assert("maxLength"@[0] != "exclusiveMaximum"@[0]);
        assert("maxLength"@[0] != "not"@[0]);
        assert("minLength"@[1] != "maxProperties"@[1]);
        assert("minLength"@[3] != "minProperties"@[3]);
        assert("minLength"@[0] != "required"@[0]);
        assert("minLength"@[0] != "enum"@[0]);
        assert("minLength"@[0] != "exclusiveMinimum"@[0]);
        assert("minLength"@[0] != "exclusiveMaximum"@[0]);
        assert("minLength"@[0] != "not"@[0]);
        assert("maxProperties"@[1] != "minProperties"@[1]);
        assert("maxProperties"@[0] != "required"@[0]);
        assert("maxProperties"@[0] != "enum"@[0]);
        assert("maxProperties"@[0] != "exclusiveMinimum"@[0]);
        assert("maxProperties"@[0] != "exclusiveMaximum"@[0]);
        assert("maxProperties"@[0] != "not"@[0]);
        assert("minProperties"@[0] != "required"@[0]);
        assert("minProperties"@[0] != "enum"@[0]);
        assert("minProperties"@[0] != "exclusiveMinimum"@[0]);
        assert("minProperties"@[0] != "exclusiveMaximum"@[0]);
        assert("minProperties"@[0] != "not"@[0]);
        assert("required"@[0] != "enum"@[0]);
        assert("required"@[0] != "exclusiveMinimum"@[0]);
        assert("required"@[0] != "exclusiveMaximum"@[0]);
        assert("required"@[0] != "not"@[0]);
        assert("enum"@[1] != "exclusiveMinimum"@[1]);
        assert("enum"@[1] != "exclusiveMaximum"@[1]);
        assert("enum"@[0] != "not"@[0]);
        assert("exclusiveMinimum"@[10] != "exclusiveMaximum"@[10]);
        assert("exclusiveMinimum"@[0] != "not"@[0]);
        assert("exclusiveMaximum"@[0] != "not"@[0]);
    }
    let limit_kind = if is_word(keyword, "maxItems") {
        Some(LimitKind::MaxItems)
    } else if is_word(keyword, "minItems") {
        Some(LimitKind::MinItems)
    } else if is_word(keyword, "maxLength") {
        Some(LimitKind::MaxLength)
    } else if is_word(keyword, "minLength") {
        Some(LimitKind::MinLength)
    } else if is_word(keyword, "maxProperties") {
        Some(LimitKind::MaxProperties)
    } else if is_word(keyword, "minProperties") {
        Some(LimitKind::MinProperties)
    } else {
        None
    };
    if let Some(kind) = limit_kind {
        return Some(
            match crate::limits::compile(kind, fragment, context) {
                Ok(v) => Ok(Validator::Limit(v)),
                Err(e) => Err(e),
            },
        );
    }
    if is_word(keyword, "required") {
        Some(
            match crate::required::compile(fragment, context) {
                Ok(v) => {
                    proof {
                        let items = fragment->Array_0@;
                        assert forall|instance: JsonValue|
                            valid(Validator::Required(v), instance) == keyword_accepts(
                                keyword@,
                                *fragment,
                                instance,
                            ) by {
                            if instance is Object {
                                let es = instance->Object_0@;
                                assert forall|i: int|
                                    #![trigger v.required@[i]]
                                    #![trigger fragment->Array_0@[i]]
                                    0 <= i < items.len() implies has_key(es, v.required@[i]@)
                                        == has_key(es, items[i]->String_0@) by {}
                            }
                        }
                    }
                    Ok(Validator::Required(v))
                },
                Err(e) => Err(e),
            },
        )
    } else if is_word(keyword, "enum") {
        Some(
            match crate::enumeration::compile(fragment, context) {
                Ok(v) => {
                    proof {
                        let items = fragment->Array_0@;
                        assert forall|instance: JsonValue|
                            valid(Validator::Enum(v), instance) == keyword_accepts(
                                keyword@,
                                *fragment,
                                instance,
                            ) by {
                            assert forall|i: int|
                                #![trigger v.items@[i]]
                                #![trigger fragment->Array_0@[i]]
                                0 <= i < items.len() implies json_eq(instance, v.items@[i])
                                    == json_eq(instance, items[i]) by {
                                lemma_json_eq_same(instance, v.items@[i], items[i]);
                            }
                        }
                    }
                    Ok(Validator::Enum(v))
                },
                Err(e) => Err(e),
            },
        )
    } else if is_word(keyword, "exclusiveMinimum") {
        Some(
            match crate::exclusive::compile(Bound::Minimum, fragment, context) {
                Ok(v) => Ok(Validator::Exclusive(v)),
                Err(e) => Err(e),
            },
        )
    } else if is_word(keyword, "exclusiveMaximum") {
        Some(
            match crate::exclusive::compile(Bound::Maximum, fragment, context) {
                Ok(v) => Ok(Validator::Exclusive(v)),
                Err(e) => Err(e),
            },
        )
    } else if is_word(keyword, "not") {
        Some(
            match NotValidator::compile(fragment, context) {
                Ok(v) => {
                    proof {
                        assert forall|instance: JsonValue|
                            valid(Validator::Not(v), instance) == keyword_accepts(
                                keyword@,
                                *fragment,
                                instance,
                            ) by {
                            lemma_not_negates(v, instance);
                            assert(all_valid(v.validators@, instance) == schema_accepts(
                                *fragment,
                                instance,
                            ));
                            assert(limit_kind_of(keyword@) is None);
                            assert(keyword_accepts(keyword@, *fragment, instance)
                                == !schema_accepts(*fragment, instance));
                        }
                    }
                    Ok(Validator::Not(v))
                },
                Err(e) => Err(e),
            },
        )
    } else {
        None
    }
}

/// Compiles every keyword of a schema object, in order, skipping keywords
/// that are not this library's. The first malformed keyword aborts the
/// whole object; a schema that is not an object is malformed.
#[verifier::loop_isolation(false)]
pub fn compile_validators(schema: &JsonValue, context: &CompilationContext) -> (r: Result<
    Vec<Validator>,
    CompilationError,
>)
    ensures
        r is Ok <==> schema_ok(*schema),
        r is Ok ==> r->Ok_0@.len() <= schema->Object_0@.len(),
        r is Ok ==> forall|instance: JsonValue|
            all_valid(r->Ok_0@, instance) == schema_accepts(*schema, instance),
    decreases schema, 0int,
{
    match schema {
        JsonValue::Object(entries) => {
            let mut validators: Vec<Validator> = Vec::new();
            let mut i: usize = 0;
            while i < entries.len()
                invariant
                    i <= entries.len(),
                    validators@.len() <= i,
                    forall|t: int|
                        0 <= t < i ==> keyword_ok((#[trigger] entries@[t]).0@, entries@[t].1),
                    forall|instance: JsonValue|
                        all_valid(validators@, instance) == #[trigger] prefix_accepts(
                            entries@,
                            i as int,
                            instance,
                        ),
                decreases entries.len() - i,
            {
                proof {
                    assert(decreases_to!(*schema => *entries));
                    assert(decreases_to!(*entries => entries[i as int]));
                }
                let ghost before = validators@;
                let res = compile_keyword(&entries[i].0, &entries[i].1, context);
                match res {
                    None => {
                        proof {
                            assert forall|instance: JsonValue|
                                all_valid(validators@, instance) == #[trigger] prefix_accepts(
                                    entries@,
                                    i + 1,
                                    instance,
                                ) by {
                                lemma_prefix_step(entries@, i as int, instance);
                            }
                        }
                    },
                    Some(Ok(v)) => {
                        let ghost gv = v;
                        validators.push(v);
                        proof {
                            assert forall|instance: JsonValue|
                                all_valid(validators@, instance) == #[trigger] prefix_accepts(
                                    entries@,
                                    i + 1,
                                    instance,
                                ) by {
                                lemma_prefix_step(entries@, i as int, instance);
                                lemma_all_valid_push(before, gv, instance);
                                assert(prefix_accepts(entries@, i as int, instance) == all_valid(
                                    before,
                                    instance,
                                ));
                            }
                        }
                    },
                    Some(Err(e)) => {
                        proof {
                            assert(!keyword_ok(entries@[i as int].0@, entries@[i as int].1));
                        }
                        return Err(e);
                    },
                }
                i = i + 1;
            }
            proof {
                assert forall|instance: JsonValue|
                    all_valid(validators@, instance) == schema_accepts(*schema, instance) by {
                    assert(prefix_accepts(entries@, entries@.len() as int, instance)
                        == schema_accepts(*schema, instance));
                }
            }
            Ok(validators)
        },
        _ => Err(CompilationError::SchemaError),
    }
}

/// Each of the first `n` keywords accepts the instance.
pub open spec fn prefix_accepts(es: Seq<(String, JsonValue)>, n: int, instance: JsonValue) -> bool {
    forall|t: int| 0 <= t < n ==> keyword_accepts((#[trigger] es[t]).0@, es[t].1, instance)
}

proof fn lemma_prefix_step(es: Seq<(String, JsonValue)>, n: int, instance: JsonValue)
    requires
        0 <= n < es.len(),
    ensures
        prefix_accepts(es, n + 1, instance) == (prefix_accepts(es, n, instance) && keyword_accepts(
            es[n].0@,
            es[n].1,
            instance,
        )),
{
}

proof fn lemma_all_valid_push(vs: Seq<Validator>, v: Validator, instance: JsonValue)
    ensures
        all_valid(vs.push(v), instance) == (all_valid(vs, instance) && valid(v, instance)),
{
    let ws = vs.push(v);
    if all_valid(vs, instance) && valid(v, instance) {
        assert forall|t: int| 0 <= t < ws.len() implies valid(#[trigger] ws[t], instance) by {
            if t < vs.len() {
                assert(ws[t] == vs[t]);
            }
        }
    }
    if all_valid(ws, instance) {
        assert(valid(ws[vs.len() as int], instance));
        assert forall|t: int| 0 <= t < vs.len() implies valid(#[trigger] vs[t], instance) by {
            assert(ws[t] == vs[t]);
        }
    }
}

} // verus!
