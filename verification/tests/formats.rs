use validations::schema::HSchema;
use validations::value::Value;

fn s(x: &str) -> Value {
    Value::Str(x.to_string())
}

fn accepts(sch: &HSchema, x: &str) -> bool {
    sch.validate(&s(x)).is_ok()
}

fn rejects_with_invalid_format(sch: &HSchema, x: &str) -> bool {
    match sch.validate(&s(x)) {
        Err(issues) => issues.len() == 1 && issues[0].message == "Invalid format",
        Ok(_) => false,
    }
}

#[test]
fn uuid_format_accepts_canonical_identifiers() {
    let sch = HSchema::string().uuid();
    assert!(accepts(&sch, "123e4567-e89b-42d3-a456-426614174000"));
    assert!(accepts(&sch, "123E4567-E89B-42D3-B456-426614174000"));
    assert!(accepts(&sch, "00000000-0000-0000-8000-000000000000"));
}

#[test]
fn uuid_format_rejects_malformed_identifiers() {
    let sch = HSchema::string().uuid();
    assert!(rejects_with_invalid_format(&sch, "123e4567-e89b-42d3-7456-426614174000"));
    assert!(rejects_with_invalid_format(&sch, "123e4567-e89b-42d3-a456-42661417400"));
    assert!(rejects_with_invalid_format(&sch, "123e4567-e89b-42d3-a456-42661417400g"));
    assert!(rejects_with_invalid_format(&sch, "123e4567e89b42d3a456426614174000aaaa"));
    assert!(rejects_with_invalid_format(&sch, ""));
}

#[test]
fn email_format_wants_local_at_domain_dot_tail() {
    let sch = HSchema::string().email();
    assert!(accepts(&sch, "a@b.co"));
    assert!(accepts(&sch, "first.last@sub.example.org"));
    assert!(accepts(&sch, "a@b.c"));
    assert!(rejects_with_invalid_format(&sch, "a@b"));
    assert!(rejects_with_invalid_format(&sch, "@b.co"));
    assert!(rejects_with_invalid_format(&sch, "a@@b.co"));
    assert!(rejects_with_invalid_format(&sch, "a b@c.do"));
    assert!(rejects_with_invalid_format(&sch, "a@b.co "));
    assert!(rejects_with_invalid_format(&sch, "ab.co"));
    assert!(rejects_with_invalid_format(&sch, "a@.co"));
}

#[test]
fn phone_format_wants_seven_to_fifteen_digits() {
    let sch = HSchema::string().phone();
    assert!(accepts(&sch, "1234567"));
    assert!(accepts(&sch, "+123456789012345"));
    assert!(rejects_with_invalid_format(&sch, "123456"));
    assert!(rejects_with_invalid_format(&sch, "1234567890123456"));
    assert!(rejects_with_invalid_format(&sch, "+12345x7"));
    assert!(rejects_with_invalid_format(&sch, "12 34567"));
    assert!(rejects_with_invalid_format(&sch, "+"));
}

#[test]
fn domain_format_without_protocol() {
    let sch = HSchema::string().domain(false);
    assert!(accepts(&sch, "example.com"));
    assert!(accepts(&sch, "sub-domain.example.co"));
    assert!(accepts(&sch, "a1.b2.org"));
    assert!(rejects_with_invalid_format(&sch, "Example.com"));
    assert!(rejects_with_invalid_format(&sch, "example.c"));
    assert!(rejects_with_invalid_format(&sch, "example.company7"));
    assert!(rejects_with_invalid_format(&sch, "example..com"));
    assert!(rejects_with_invalid_format(&sch, "-example.com"));
    assert!(rejects_with_invalid_format(&sch, "example-.com"));
    assert!(rejects_with_invalid_format(&sch, "http://example.com"));
    assert!(rejects_with_invalid_format(&sch, "example"));
}

#[test]
fn domain_format_with_protocol() {
    let sch = HSchema::string().domain(true);
    assert!(accepts(&sch, "http://example.com"));
    assert!(accepts(&sch, "https://sub.example.org"));
    assert!(rejects_with_invalid_format(&sch, "example.com"));
    assert!(rejects_with_invalid_format(&sch, "ftp://example.com"));
    assert!(rejects_with_invalid_format(&sch, "https://example"));
}

#[test]
fn regex_format_matches_anywhere_in_the_string() {
    let anchored = HSchema::string().regex("^[ab]+$".to_string());
    assert!(accepts(&anchored, "abba"));
    assert!(rejects_with_invalid_format(&anchored, "abc"));
    let loose = HSchema::string().regex("b".to_string());
    assert!(accepts(&loose, "abc"));
    assert!(rejects_with_invalid_format(&loose, "acd"));
}

#[test]
fn regex_format_with_invalid_pattern_fails_closed() {
    let sch = HSchema::string().regex("(".to_string());
    assert!(rejects_with_invalid_format(&sch, "anything"));
    assert!(rejects_with_invalid_format(&sch, "("));
}

#[test]
fn format_checks_run_after_length_checks() {
    let sch = HSchema::string().min_length(10).email();
    match sch.validate(&s("a@b.co")) {
        Err(issues) => {
            assert_eq!(issues.len(), 1);
            assert_eq!(issues[0].message, "String shorter than 10");
        },
        Ok(_) => panic!("expected a length failure"),
    }
}

#[test]
fn last_format_call_wins() {
    let sch = HSchema::string().uuid().email();
    assert!(accepts(&sch, "a@b.co"));
    assert!(rejects_with_invalid_format(&sch, "123e4567-e89b-42d3-a456-426614174000"));
}

#[test]
fn coerced_non_string_goes_through_format_check() {
    let sch = HSchema::string().coerce().regex("^42$".to_string());
    assert!(sch.validate(&Value::Num(42)).is_ok());
    assert!(rejects_with_invalid_format(&sch, "41"));
}
