use validations::schema::HSchema;
use validations::value::Value;

fn s(x: &str) -> Value {
    Value::Str(x.to_string())
}

fn n(x: i64) -> Value {
    Value::Num(x)
}

fn obj(fields: Vec<(&str, Value)>) -> Value {
    Value::Obj(fields.into_iter().map(|(k, v)| (k.to_string(), v)).collect())
}

#[test]
fn modifiers_off_their_variant_are_no_ops() {
    let st = HSchema::string().min(5).max(1);
    assert_eq!(st.validate(&s("abc")), Ok(s("abc")));
    let nu = HSchema::number().min_length(5).max_length(1).uuid();
    assert_eq!(nu.validate(&n(2)), Ok(n(2)));
    let bo = HSchema::boolean().min(5).email();
    assert_eq!(bo.validate(&Value::Bool(true)), Ok(Value::Bool(true)));
}

#[test]
fn coerce_off_its_variants_is_a_no_op() {
    let lit = HSchema::literal(n(1)).coerce();
    assert!(lit.validate(&s("1")).is_err());
}

#[test]
fn add_prop_replaces_an_existing_key() {
    let mut schema = HSchema::object();
    schema.add_prop("a".to_string(), &HSchema::number());
    schema.add_prop("a".to_string(), &HSchema::string());
    assert_eq!(
        schema.validate(&obj(vec![("a", s("x"))])),
        Ok(obj(vec![("a", s("x"))]))
    );
    assert!(schema.validate(&obj(vec![("a", n(1))])).is_err());
}

#[test]
fn add_prop_off_objects_does_nothing() {
    let mut schema = HSchema::number();
    schema.add_prop("a".to_string(), &HSchema::string());
    assert_eq!(schema.validate(&n(3)), Ok(n(3)));
}

#[test]
fn shared_child_schema_serves_two_parents() {
    let child = HSchema::string().min_length(2);
    let mut left = HSchema::object();
    left.add_prop("x".to_string(), &child);
    let mut right = HSchema::object();
    right.add_prop("y".to_string(), &child);
    assert!(left.validate(&obj(vec![("x", s("ok"))])).is_ok());
    assert!(right.validate(&obj(vec![("y", s("k"))])).is_err());
    assert!(child.validate(&s("ok")).is_ok());
}

#[test]
fn mirror_of_a_configured_string_schema() {
    let sch = HSchema::string().min_length(2).max_length(5).uuid();
    let expected = obj(vec![
        ("type", s("string")),
        ("minLength", n(2)),
        ("maxLength", n(5)),
        ("format", s("uuid")),
    ]);
    assert_eq!(sch.get_json_schema(), expected);
}

#[test]
fn mirror_of_number_bounds() {
    let sch = HSchema::number().min(-1).max(9);
    let expected = obj(vec![("type", s("number")), ("minimum", n(-1)), ("maximum", n(9))]);
    assert_eq!(sch.get_json_schema(), expected);
}

#[test]
fn mirror_of_the_other_leaf_variants() {
    assert_eq!(HSchema::any().get_json_schema(), obj(vec![]));
    assert_eq!(
        HSchema::boolean().get_json_schema(),
        obj(vec![("type", s("boolean"))])
    );
    assert_eq!(
        HSchema::null_type().get_json_schema(),
        obj(vec![("type", s("null"))])
    );
    assert_eq!(
        HSchema::literal(n(5)).get_json_schema(),
        obj(vec![("const", n(5))])
    );
    assert_eq!(
        HSchema::instance_of(3, "Foo".to_string()).get_json_schema(),
        obj(vec![("type", s("object")), ("instanceOf", s("Foo"))])
    );
}

#[test]
fn mirror_of_regex_format_carries_the_pattern() {
    let sch = HSchema::string().regex("^a+$".to_string());
    assert_eq!(
        sch.get_json_schema(),
        obj(vec![("type", s("string")), ("format", s("^a+$"))])
    );
}

#[test]
fn mirror_of_composite_schemas() {
    let arr = HSchema::array(&HSchema::number());
    assert_eq!(
        arr.get_json_schema(),
        obj(vec![
            ("type", s("array")),
            ("items", obj(vec![("type", s("number"))])),
        ])
    );
    let uni = HSchema::union(vec![HSchema::number(), HSchema::null_type()]);
    assert_eq!(
        uni.get_json_schema(),
        obj(vec![(
            "anyOf",
            Value::Arr(vec![
                obj(vec![("type", s("number"))]),
                obj(vec![("type", s("null"))]),
            ]),
        )])
    );
    let mut ob = HSchema::object();
    ob.add_prop("a".to_string(), &HSchema::boolean());
    assert_eq!(
        ob.get_json_schema(),
        obj(vec![
            ("type", s("object")),
            ("properties", obj(vec![("a", obj(vec![("type", s("boolean"))]))])),
        ])
    );
}

#[test]
fn mirror_ignores_the_optional_flag() {
    assert_eq!(
        HSchema::boolean().optional().get_json_schema(),
        obj(vec![("type", s("boolean"))])
    );
}

#[test]
fn issues_at_the_root_carry_no_path() {
    let r = HSchema::number().validate(&s("x"));
    match r {
        Err(issues) => {
            assert_eq!(issues.len(), 1);
            assert!(issues[0].path.is_none());
        },
        Ok(_) => panic!("expected a failure"),
    }
}

#[test]
fn deep_union_keeps_child_paths() {
    let mut left = HSchema::object();
    left.add_prop("kind".to_string(), &HSchema::literal(s("a")));
    let mut right = HSchema::object();
    right.add_prop("kind".to_string(), &HSchema::literal(s("b")));
    let u = HSchema::union(vec![left, right]);
    let r = u.validate(&obj(vec![("kind", s("c"))]));
    match r {
        Err(issues) => {
            assert_eq!(issues.len(), 2);
            assert_eq!(issues[0].message, "Literal mismatch");
            assert_eq!(issues[0].path, Some(vec!["kind".to_string()]));
            assert_eq!(issues[1].message, "Literal mismatch");
            assert_eq!(issues[1].path, Some(vec!["kind".to_string()]));
        },
        Ok(_) => panic!("expected a failure"),
    }
}
