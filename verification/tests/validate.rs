use validations::engine::Issue;
use validations::schema::HSchema;
use validations::value::Value;

fn s(x: &str) -> Value {
    Value::Str(x.to_string())
}

fn n(x: i64) -> Value {
    Value::Num(x)
}

fn obj(fields: Vec<(&str, Value)>) -> Value {
    Value::Obj(fields.into_iter().map(|(k, v)| (k.to_string(), v)).collect())
}

fn issue_at(msg: &str, path: &[&str]) -> Issue {
    Issue {
        message: msg.to_string(),
        path: Some(path.iter().map(|p| p.to_string()).collect()),
    }
}

fn issue_root(msg: &str) -> Issue {
    Issue { message: msg.to_string(), path: None }
}

#[test]
fn scenario_short_name() {
    let mut schema = HSchema::object();
    schema.add_prop("name".to_string(), &HSchema::string().min_length(1));
    schema.add_prop("age".to_string(), &HSchema::number().min(0).optional());
    let input = obj(vec![("name", s(""))]);
    let r = schema.validate(&input);
    assert_eq!(r, Err(vec![issue_at("String shorter than 1", &["name"])]));
}

#[test]
fn scenario_missing_name() {
    let mut schema = HSchema::object();
    schema.add_prop("name".to_string(), &HSchema::string().min_length(1));
    schema.add_prop("age".to_string(), &HSchema::number().min(0).optional());
    let input = obj(vec![]);
    let r = schema.validate(&input);
    assert_eq!(r, Err(vec![issue_at("Missing required property: name", &["name"])]));
}

#[test]
fn scenario_negative_age() {
    let mut schema = HSchema::object();
    schema.add_prop("name".to_string(), &HSchema::string().min_length(1));
    schema.add_prop("age".to_string(), &HSchema::number().min(0).optional());
    let input = obj(vec![("name", s("Al")), ("age", n(-1))]);
    let r = schema.validate(&input);
    assert_eq!(r, Err(vec![issue_at("Number less than 0", &["age"])]));
}

#[test]
fn scenario_success_without_optional_key() {
    let mut schema = HSchema::object();
    schema.add_prop("name".to_string(), &HSchema::string().min_length(1));
    schema.add_prop("age".to_string(), &HSchema::number().min(0).optional());
    let input = obj(vec![("name", s("Al"))]);
    let r = schema.validate(&input);
    assert_eq!(r, Ok(obj(vec![("name", s("Al"))])));
}

#[test]
fn path_to_nested_array_element() {
    let mut inner = HSchema::object();
    inner.add_prop("b".to_string(), &HSchema::array(&HSchema::number()));
    let mut schema = HSchema::object();
    schema.add_prop("a".to_string(), &inner);
    let input = obj(vec![("a", obj(vec![("b", Value::Arr(vec![n(1), s("x")]))]))]);
    let r = schema.validate(&input);
    assert_eq!(r, Err(vec![issue_at("Expected number", &["a", "b", "1"])]));
}

#[test]
fn modifier_leaves_receiver_unchanged() {
    let base = HSchema::string();
    let before = base.validate(&s("ab"));
    let stricter = base.min_length(5);
    let after = base.validate(&s("ab"));
    assert_eq!(before, Ok(s("ab")));
    assert_eq!(before, after);
    assert_eq!(
        stricter.validate(&s("ab")),
        Err(vec![issue_root("String shorter than 5")])
    );
}

#[test]
fn optional_modifier_leaves_receiver_required() {
    let base = HSchema::string();
    let opt = base.optional();
    assert!(base.validate(&Value::Undefined).is_err());
    assert_eq!(opt.validate(&Value::Undefined), Ok(Value::Undefined));
}

#[test]
fn optional_accepts_absent_and_null_for_every_variant() {
    let schemas = vec![
        HSchema::string(),
        HSchema::number(),
        HSchema::boolean(),
        HSchema::any(),
        HSchema::null_type(),
        HSchema::literal(n(5)),
        HSchema::object(),
        HSchema::array(&HSchema::number()),
        HSchema::union(vec![HSchema::number()]),
        HSchema::instance_of(1, "Foo".to_string()),
    ];
    for sch in schemas {
        let o = sch.optional();
        assert_eq!(o.validate(&Value::Undefined), Ok(Value::Undefined));
        assert_eq!(o.validate(&Value::Null), Ok(Value::Undefined));
    }
}

#[test]
fn union_first_success_wins() {
    // Both alternatives accept the number; the first one's normalized
    // output (the coerced string) must come back.
    let u = HSchema::union(vec![HSchema::string().coerce(), HSchema::number()]);
    assert_eq!(u.validate(&n(7)), Ok(s("7")));
}

#[test]
fn union_failure_concatenates_issues_in_order() {
    let u = HSchema::union(vec![HSchema::number(), HSchema::boolean()]);
    let r = u.validate(&s("x"));
    assert_eq!(
        r,
        Err(vec![issue_root("Expected number"), issue_root("Expected boolean")])
    );
}

#[test]
fn union_of_nothing_rejects_with_no_issues() {
    let u = HSchema::union(vec![]);
    assert_eq!(u.validate(&n(1)), Err(vec![]));
}

#[test]
fn object_aggregates_all_property_failures() {
    let mut schema = HSchema::object();
    schema.add_prop("a".to_string(), &HSchema::number());
    schema.add_prop("b".to_string(), &HSchema::number());
    let input = obj(vec![("a", s("x")), ("b", s("y"))]);
    let r = schema.validate(&input);
    assert_eq!(
        r,
        Err(vec![
            issue_at("Expected number", &["a"]),
            issue_at("Expected number", &["b"]),
        ])
    );
}

#[test]
fn any_round_trips_every_value() {
    let a = HSchema::any();
    let samples = vec![
        Value::Undefined,
        Value::Null,
        Value::Bool(true),
        n(-3),
        s("hi"),
        Value::Arr(vec![n(1), s("x")]),
        obj(vec![("k", n(2))]),
        Value::Instance(vec![9]),
    ];
    for v in samples {
        let copy = a.validate(&v).unwrap();
        assert_eq!(copy, v);
    }
}

#[test]
fn literal_accepts_itself_and_rejects_lookalikes() {
    let five = HSchema::literal(n(5));
    assert_eq!(five.validate(&n(5)), Ok(n(5)));
    assert_eq!(five.validate(&s("5")), Err(vec![issue_root("Literal mismatch")]));
}

#[test]
fn null_schema_accepts_only_explicit_null() {
    let nl = HSchema::null_type();
    assert_eq!(nl.validate(&Value::Null), Ok(Value::Undefined));
    assert_eq!(nl.validate(&Value::Undefined), Err(vec![issue_root("Expected null")]));
    assert_eq!(nl.validate(&n(0)), Err(vec![issue_root("Expected null")]));
}

#[test]
fn boolean_truth_table() {
    let b = HSchema::boolean();
    assert_eq!(b.validate(&Value::Bool(true)), Ok(Value::Bool(true)));
    assert_eq!(b.validate(&Value::Bool(false)), Ok(Value::Bool(false)));
    assert_eq!(b.validate(&n(1)), Err(vec![issue_root("Expected boolean")]));
    assert_eq!(b.validate(&Value::Null), Err(vec![issue_root("Expected boolean")]));
    let c = HSchema::boolean().coerce();
    assert_eq!(c.validate(&s("x")), Ok(Value::Bool(true)));
    assert_eq!(c.validate(&s("")), Ok(Value::Bool(false)));
    assert_eq!(c.validate(&n(0)), Ok(Value::Bool(false)));
    assert_eq!(c.validate(&n(-2)), Ok(Value::Bool(true)));
    assert_eq!(c.validate(&Value::Undefined), Ok(Value::Bool(false)));
}

#[test]
fn string_coercion_uses_display_form() {
    let c = HSchema::string().coerce();
    assert_eq!(c.validate(&n(42)), Ok(s("42")));
    assert_eq!(c.validate(&n(-5)), Ok(s("-5")));
    assert_eq!(c.validate(&Value::Bool(true)), Ok(s("true")));
    assert_eq!(c.validate(&Value::Null), Ok(s("null")));
    let plain = HSchema::string();
    assert_eq!(
        plain.validate(&n(5)),
        Err(vec![issue_root("Expected string, received number")])
    );
}

#[test]
fn number_coercion_parses_strings() {
    let c = HSchema::number().coerce();
    assert_eq!(c.validate(&s("42")), Ok(n(42)));
    assert_eq!(c.validate(&s("-7")), Ok(n(-7)));
    assert_eq!(c.validate(&s("+9")), Ok(n(9)));
    assert_eq!(
        c.validate(&s("abc")),
        Err(vec![issue_root("Could not coerce to number")])
    );
    assert_eq!(c.validate(&Value::Bool(true)), Err(vec![issue_root("Expected number")]));
    let plain = HSchema::number();
    assert_eq!(plain.validate(&s("42")), Err(vec![issue_root("Expected number")]));
}

#[test]
fn number_coercion_respects_signed_64_bit_range() {
    let c = HSchema::number().coerce();
    assert_eq!(
        c.validate(&s("9223372036854775807")),
        Ok(n(9223372036854775807))
    );
    assert_eq!(c.validate(&s("-9223372036854775808")), Ok(n(i64::MIN)));
    assert_eq!(
        c.validate(&s("9223372036854775808")),
        Err(vec![issue_root("Could not coerce to number")])
    );
}

#[test]
fn number_bounds_and_messages() {
    let sch = HSchema::number().min(-2).max(10);
    assert_eq!(sch.validate(&n(-2)), Ok(n(-2)));
    assert_eq!(sch.validate(&n(10)), Ok(n(10)));
    assert_eq!(sch.validate(&n(-3)), Err(vec![issue_root("Number less than -2")]));
    assert_eq!(sch.validate(&n(11)), Err(vec![issue_root("Number greater than 10")]));
}

#[test]
fn string_length_bounds_and_messages() {
    let sch = HSchema::string().min_length(2).max_length(3);
    assert_eq!(sch.validate(&s("ab")), Ok(s("ab")));
    assert_eq!(sch.validate(&s("abc")), Ok(s("abc")));
    assert_eq!(sch.validate(&s("a")), Err(vec![issue_root("String shorter than 2")]));
    assert_eq!(sch.validate(&s("abcd")), Err(vec![issue_root("String longer than 3")]));
}

#[test]
fn instance_check_uses_constructor_handles() {
    let sch = HSchema::instance_of(7, "Foo".to_string());
    assert_eq!(
        sch.validate(&Value::Instance(vec![3, 7])),
        Ok(Value::Instance(vec![3, 7]))
    );
    assert_eq!(
        sch.validate(&Value::Instance(vec![3])),
        Err(vec![issue_root("Expected instance of Foo")])
    );
    assert_eq!(
        sch.validate(&n(1)),
        Err(vec![issue_root("Expected instance of Foo")])
    );
}

#[test]
fn object_rejects_non_objects() {
    let sch = HSchema::object();
    assert_eq!(sch.validate(&n(1)), Err(vec![issue_root("Expected object")]));
    assert_eq!(
        sch.validate(&Value::Arr(vec![])),
        Err(vec![issue_root("Expected object")])
    );
}

#[test]
fn array_keeps_positions_and_rejects_non_arrays() {
    let sch = HSchema::array(&HSchema::number());
    assert_eq!(
        sch.validate(&Value::Arr(vec![n(1), n(2)])),
        Ok(Value::Arr(vec![n(1), n(2)]))
    );
    assert_eq!(sch.validate(&n(1)), Err(vec![issue_root("Expected array")]));
    assert_eq!(
        sch.validate(&Value::Arr(vec![s("x"), n(2), s("y")])),
        Err(vec![
            issue_at("Expected number", &["0"]),
            issue_at("Expected number", &["2"]),
        ])
    );
}

#[test]
fn nested_optional_object_property_is_omitted() {
    let mut schema = HSchema::object();
    schema.add_prop("keep".to_string(), &HSchema::number());
    schema.add_prop("maybe".to_string(), &HSchema::string().optional());
    let input = obj(vec![("keep", n(1)), ("maybe", Value::Null)]);
    assert_eq!(schema.validate(&input), Ok(obj(vec![("keep", n(1))])));
}
