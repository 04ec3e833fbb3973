use jsonschema::context::CompilationContext;
use jsonschema::error::{Bound, CompilationError, ErrorContext};
use jsonschema::exclusive::ExclusiveValidator;
use jsonschema::limits::{LimitKind, LimitValidator};
use jsonschema::number::{compare, Cmp, Float, Number};
use jsonschema::required::RequiredValidator;
use jsonschema::validator::{compile_keyword, Schema, Validator};
use jsonschema::value::{json_equal, JsonValue};

fn u(n: u64) -> JsonValue {
    JsonValue::Number(Number::PosInt(n))
}

fn i(n: i64) -> JsonValue {
    JsonValue::Number(Number::NegInt(n))
}

fn f(negative: bool, mantissa: u64, exponent: i32) -> JsonValue {
    JsonValue::Number(Number::Float(Float { negative, mantissa, exponent }))
}

fn s(text: &str) -> JsonValue {
    JsonValue::String(text.to_string())
}

fn arr(items: Vec<JsonValue>) -> JsonValue {
    JsonValue::Array(items)
}

fn obj(entries: Vec<(&str, JsonValue)>) -> JsonValue {
    JsonValue::Object(entries.into_iter().map(|(k, v)| (k.to_string(), v)).collect())
}

fn schema(entries: Vec<(&str, JsonValue)>) -> Schema {
    match Schema::compile(&obj(entries)) {
        Ok(compiled) => compiled,
        Err(_) => panic!("schema should compile"),
    }
}

#[test]
fn max_items_rejects_three_items_with_one_error() {
    let sc = schema(vec![("maxItems", u(2))]);
    let instance = arr(vec![u(1), u(2), u(3)]);
    assert!(!sc.is_valid(&instance));
    let errors = sc.validate(&instance);
    assert_eq!(errors.len(), 1);
    assert!(matches!(
        errors[0].context,
        ErrorContext::Limit { kind: LimitKind::MaxItems, limit: 2 }
    ));
    assert!(json_equal(&errors[0].instance, &instance));
}

#[test]
fn min_length_counts_code_points() {
    let sc = schema(vec![("minLength", u(3))]);
    assert!(!sc.is_valid(&s("ab")));
    assert!(sc.is_valid(&s("abc")));
    assert!(!sc.is_valid(&s("éé")));
    assert!(sc.is_valid(&s("ééé")));
}

#[test]
fn required_reports_missing_b() {
    let sc = schema(vec![("required", arr(vec![s("a"), s("b")]))]);
    let instance = obj(vec![("a", u(1))]);
    assert!(!sc.is_valid(&instance));
    let errors = sc.validate(&instance);
    assert_eq!(errors.len(), 1);
    match &errors[0].context {
        ErrorContext::Required { property } => assert_eq!(property, "b"),
        _ => panic!("expected a required error"),
    }
}

#[test]
fn required_reports_only_first_missing() {
    let sc = schema(vec![("required", arr(vec![s("a"), s("b")]))]);
    let errors = sc.validate(&obj(vec![]));
    assert_eq!(errors.len(), 1);
    match &errors[0].context {
        ErrorContext::Required { property } => assert_eq!(property, "a"),
        _ => panic!("expected a required error"),
    }
}

#[test]
fn required_ignores_non_objects_and_empty_list() {
    let sc = schema(vec![("required", arr(vec![s("a")]))]);
    assert!(sc.is_valid(&arr(vec![])));
    assert!(sc.is_valid(&s("a")));
    let empty = schema(vec![("required", arr(vec![]))]);
    assert!(empty.is_valid(&obj(vec![])));
}

#[test]
fn enum_matches_numbers_across_forms() {
    let sc = schema(vec![("enum", arr(vec![u(1), s("a"), JsonValue::Bool(true)]))]);
    assert!(!sc.is_valid(&u(2)));
    assert!(sc.is_valid(&u(1)));
    assert!(sc.is_valid(&f(false, 1, 0)));
    assert!(sc.is_valid(&f(false, 4, -2)));
    assert!(sc.is_valid(&s("a")));
    assert!(!sc.is_valid(&s("b")));
    let errors = sc.validate(&u(2));
    assert_eq!(errors.len(), 1);
    match &errors[0].context {
        ErrorContext::Enum { options } => match options {
            JsonValue::Array(items) => assert_eq!(items.len(), 3),
            _ => panic!("options should be the array"),
        },
        _ => panic!("expected an enum error"),
    }
}

#[test]
fn enum_object_key_order_is_irrelevant() {
    let option = obj(vec![("x", u(1)), ("y", u(2))]);
    let sc = schema(vec![("enum", arr(vec![option]))]);
    assert!(sc.is_valid(&obj(vec![("y", u(2)), ("x", u(1))])));
    assert!(!sc.is_valid(&obj(vec![("y", u(1)), ("x", u(2))])));
    assert!(!sc.is_valid(&obj(vec![("x", u(1))])));
}

#[test]
fn enum_array_order_is_significant() {
    let sc = schema(vec![("enum", arr(vec![arr(vec![u(1), u(2)])]))]);
    assert!(sc.is_valid(&arr(vec![u(1), u(2)])));
    assert!(!sc.is_valid(&arr(vec![u(2), u(1)])));
}

#[test]
fn not_inverts_max_items() {
    let sc = schema(vec![("not", obj(vec![("maxItems", u(1))]))]);
    assert!(sc.is_valid(&arr(vec![u(1), u(2)])));
    assert!(!sc.is_valid(&arr(vec![u(1)])));
    let errors = sc.validate(&arr(vec![u(1)]));
    assert_eq!(errors.len(), 1);
    assert!(matches!(errors[0].context, ErrorContext::Not { .. }));
}

fn one_item() -> Vec<(&'static str, JsonValue)> {
    vec![("maxItems", u(1)), ("minItems", u(1))]
}

#[test]
fn not_negates_composite_sub_schemas() {
    let single = schema(one_item());
    let negated = schema(vec![("not", obj(one_item()))]);
    let twice = schema(vec![("not", obj(vec![("not", obj(one_item()))]))]);
    let cases = vec![arr(vec![]), arr(vec![u(1)]), arr(vec![u(1), u(2)]), s("x")];
    for case in &cases {
        assert_eq!(negated.is_valid(case), !single.is_valid(case));
        assert_eq!(twice.is_valid(case), single.is_valid(case));
    }
}

#[test]
fn exclusive_minimum_is_exact_at_two_to_the_54() {
    let limit: u64 = 1 << 54;
    let sc = schema(vec![("exclusiveMinimum", u(limit))]);
    assert!(!sc.is_valid(&u(limit)));
    assert!(!sc.is_valid(&u(limit - 1)));
    assert!(sc.is_valid(&u(limit + 1)));
    let signed = schema(vec![("exclusiveMinimum", i(1 << 54))]);
    assert!(!signed.is_valid(&i(1 << 54)));
    assert!(!signed.is_valid(&i((1 << 54) - 1)));
    assert!(signed.is_valid(&u(limit + 1)));
}

#[test]
fn exclusive_bounds_across_signedness() {
    let above_negative = schema(vec![("exclusiveMinimum", i(-5))]);
    assert!(above_negative.is_valid(&u(3)));
    assert!(above_negative.is_valid(&i(-4)));
    assert!(!above_negative.is_valid(&i(-5)));
    let above_three = schema(vec![("exclusiveMinimum", u(3))]);
    assert!(!above_three.is_valid(&i(-1)));
    assert!(above_three.is_valid(&u(u64::MAX)));
    let below_zero = schema(vec![("exclusiveMaximum", u(0))]);
    assert!(below_zero.is_valid(&i(i64::MIN)));
    assert!(!below_zero.is_valid(&u(0)));
    assert!(below_zero.is_valid(&s("not a number")));
}

#[test]
fn exclusive_bounds_with_floats() {
    let sc = schema(vec![("exclusiveMinimum", f(false, 3, -1))]);
    assert!(sc.is_valid(&u(2)));
    assert!(!sc.is_valid(&u(1)));
    assert!(!sc.is_valid(&f(false, 3, -1)));
    assert!(sc.is_valid(&f(false, 7, -2)));
    assert!(!sc.is_valid(&f(true, 7, -2)));
    let huge = schema(vec![("exclusiveMaximum", f(false, 1, 70))]);
    assert!(huge.is_valid(&u(u64::MAX)));
    let tiny = schema(vec![("exclusiveMinimum", f(false, 1, -80))]);
    assert!(!tiny.is_valid(&u(0)));
    assert!(tiny.is_valid(&u(1)));
}

#[test]
fn exclusive_limit_keeps_native_form_in_error() {
    let sc = schema(vec![("exclusiveMinimum", u(1 << 60))]);
    let errors = sc.validate(&u(1 << 60));
    assert_eq!(errors.len(), 1);
    assert!(matches!(
        errors[0].context,
        ErrorContext::Exclusive { bound: Bound::Minimum, threshold: Number::PosInt(n) } if n == 1 << 60
    ));
}

#[test]
fn compare_orders_exactly() {
    let big = Number::PosInt((1 << 60) + 1);
    let float = Number::Float(Float { negative: false, mantissa: 1, exponent: 60 });
    assert!(matches!(compare(&big, &float), Cmp::Greater));
    assert!(matches!(compare(&float, &big), Cmp::Less));
    let zero = Number::Float(Float { negative: true, mantissa: 0, exponent: 3 });
    assert!(matches!(compare(&zero, &Number::PosInt(0)), Cmp::Equal));
    assert!(matches!(compare(&Number::NegInt(-1), &Number::PosInt(0)), Cmp::Less));
}

#[test]
fn size_limits_apply_only_to_their_type() {
    let cases: Vec<(LimitKind, JsonValue, JsonValue)> = vec![
        (LimitKind::MaxItems, arr(vec![u(1), u(2)]), s("abc")),
        (LimitKind::MaxLength, s("abc"), arr(vec![u(1), u(2), u(3)])),
        (LimitKind::MaxProperties, obj(vec![("a", u(1)), ("b", u(2))]), arr(vec![u(1), u(2), u(3)])),
    ];
    for (kind, fitting, other) in cases {
        let strict = LimitValidator::compile(kind, &u(1), vec![]).ok().unwrap();
        let loose = LimitValidator::compile(kind, &u(3), vec![]).ok().unwrap();
        assert!(!strict.is_valid(&fitting));
        assert!(loose.is_valid(&fitting));
        assert!(strict.is_valid(&other) || matches!(kind, LimitKind::MaxLength));
        assert!(strict.is_valid(&JsonValue::Null));
    }
    let min_props = LimitValidator::compile(LimitKind::MinProperties, &u(2), vec![]).ok().unwrap();
    assert!(!min_props.is_valid(&obj(vec![("a", u(1))])));
    assert!(min_props.is_valid(&obj(vec![("a", u(1)), ("b", u(2))])));
    assert!(min_props.is_valid(&u(7)));
    let min_items = LimitValidator::compile(LimitKind::MinItems, &u(0), vec![]).ok().unwrap();
    assert!(min_items.is_valid(&arr(vec![])));
}

#[test]
fn malformed_fragments_are_schema_errors() {
    let ctx = CompilationContext::new();
    let bad = vec![
        ("maxItems", s("2")),
        ("minLength", i(-1)),
        ("maxProperties", f(false, 2, 0)),
        ("required", arr(vec![u(1)])),
        ("required", s("a")),
        ("enum", u(5)),
        ("exclusiveMinimum", s("a")),
        ("not", u(5)),
        ("not", obj(vec![("maxItems", s("x"))])),
    ];
    for (keyword, fragment) in bad {
        let r = compile_keyword(&keyword.to_string(), &fragment, &ctx);
        assert!(matches!(r, Some(Err(CompilationError::SchemaError))), "{}", keyword);
    }
    assert!(compile_keyword(&"title".to_string(), &s("x"), &ctx).is_none());
    assert!(Schema::compile(&obj(vec![("maxItems", u(1)), ("minItems", s("x"))])).is_err());
}

#[test]
fn describe_is_stable_and_exact() {
    let v = Validator::Limit(LimitValidator::compile(LimitKind::MaxItems, &u(123), vec![]).ok().unwrap());
    assert_eq!(v.describe(), Some("maxItems: 123".to_string()));
    assert_eq!(v.describe(), v.describe());
    let r = RequiredValidator::compile(&arr(vec![s("a"), s("b")]), vec![]).ok().unwrap();
    assert_eq!(r.describe(), "required: [a, b]");
    let x = ExclusiveValidator::compile(Bound::Minimum, &i(-42), vec![]).ok().unwrap();
    assert_eq!(x.describe(), Some("exclusiveMinimum: -42".to_string()));
    let fx = ExclusiveValidator::compile(Bound::Minimum, &f(false, 3, -1), vec![]).ok().unwrap();
    assert_eq!(fx.describe(), None);
    let sc = schema(vec![("not", obj(vec![("maxItems", u(1)), ("minLength", u(0))]))]);
    assert_eq!(sc.validators[0].describe(), Some("not: {maxItems: 1, minLength: 0}".to_string()));
}

#[test]
fn instance_path_is_captured_at_compile_time() {
    let ctx = CompilationContext { curr_instance_path: vec!["items".to_string(), "0".to_string()] };
    let v = compile_keyword(&"minItems".to_string(), &u(1), &ctx).unwrap().ok().unwrap();
    let errors = v.validate(&arr(vec![]));
    assert_eq!(errors.len(), 1);
    assert_eq!(errors[0].instance_path, vec!["items".to_string(), "0".to_string()]);
}

#[test]
fn object_equality_checks_both_sides() {
    let doubled = obj(vec![("a", u(1)), ("a", u(1))]);
    let mixed = obj(vec![("a", u(1)), ("b", u(2))]);
    assert!(!json_equal(&doubled, &mixed));
    assert!(!json_equal(&mixed, &doubled));
    assert!(json_equal(&mixed, &obj(vec![("b", u(2)), ("a", f(false, 1, 0))])));
}

#[test]
fn not_of_empty_schema_rejects_everything() {
    let sc = schema(vec![("not", obj(vec![]))]);
    assert!(!sc.is_valid(&u(1)));
    assert!(!sc.is_valid(&JsonValue::Null));
    assert_eq!(sc.validate(&s("x")).len(), 1);
}

#[test]
fn enum_nested_key_order_is_irrelevant() {
    let option = obj(vec![("outer", obj(vec![("x", u(1)), ("y", arr(vec![u(2)]))]))]);
    let sc = schema(vec![("enum", arr(vec![option]))]);
    let reordered = obj(vec![("outer", obj(vec![("y", arr(vec![f(false, 1, 1)])), ("x", u(1))]))]);
    assert!(sc.is_valid(&reordered));
}

#[test]
fn errors_concatenate_in_declaration_order() {
    let sc = schema(vec![("maxItems", u(1)), ("minItems", u(5)), ("title", s("t"))]);
    let errors = sc.validate(&arr(vec![u(1), u(2)]));
    assert_eq!(errors.len(), 2);
    assert!(matches!(errors[0].context, ErrorContext::Limit { kind: LimitKind::MaxItems, .. }));
    assert!(matches!(errors[1].context, ErrorContext::Limit { kind: LimitKind::MinItems, .. }));
}
