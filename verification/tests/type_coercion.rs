use ahash::AHashMap;
use bolt_core::request_pipeline::{
    coerce_path_params, error_422_validation, json_escape, validate_and_cache_typed_params,
};
use bolt_core::type_coercion::{
    coerce_float, coerce_param, coerce_to_py, has_uuid_form, is_float_text, CoercedValue,
    MAX_PARAM_LENGTH, TYPE_BOOL, TYPE_DATE, TYPE_DATETIME, TYPE_DECIMAL, TYPE_FLOAT, TYPE_INT,
    TYPE_STRING, TYPE_TIME, TYPE_UUID,
};

fn map(items: &[(&str, &str)]) -> AHashMap<String, String> {
    items.iter().map(|(k, v)| (k.to_string(), v.to_string())).collect()
}

fn types(items: &[(&str, u8)]) -> AHashMap<String, u8> {
    items.iter().map(|(k, v)| (k.to_string(), *v)).collect()
}

#[test]
fn test_coerce_int() {
    assert!(matches!(coerce_param("42", TYPE_INT), Ok(CoercedValue::Int(42))));
    assert!(matches!(coerce_param("-123", TYPE_INT), Ok(CoercedValue::Int(-123))));
    assert!(coerce_param("abc", TYPE_INT).is_err());
}

#[test]
fn test_coerce_float() {
    assert!(
        matches!(coerce_param("3.14", TYPE_FLOAT), Ok(CoercedValue::Float(t)) if (t.parse::<f64>().unwrap() - 3.14).abs() < 0.001)
    );
    assert!(
        matches!(coerce_param("-2.5", TYPE_FLOAT), Ok(CoercedValue::Float(t)) if (t.parse::<f64>().unwrap() + 2.5).abs() < 0.001)
    );
    assert!(coerce_param("not_a_float", TYPE_FLOAT).is_err());
}

#[test]
fn test_coerce_bool() {
    assert!(matches!(coerce_param("true", TYPE_BOOL), Ok(CoercedValue::Bool(true))));
    assert!(matches!(coerce_param("True", TYPE_BOOL), Ok(CoercedValue::Bool(true))));
    assert!(matches!(coerce_param("1", TYPE_BOOL), Ok(CoercedValue::Bool(true))));
    assert!(matches!(coerce_param("yes", TYPE_BOOL), Ok(CoercedValue::Bool(true))));
    assert!(matches!(coerce_param("on", TYPE_BOOL), Ok(CoercedValue::Bool(true))));

    assert!(matches!(coerce_param("false", TYPE_BOOL), Ok(CoercedValue::Bool(false))));
    assert!(matches!(coerce_param("False", TYPE_BOOL), Ok(CoercedValue::Bool(false))));
    assert!(matches!(coerce_param("0", TYPE_BOOL), Ok(CoercedValue::Bool(false))));
    assert!(matches!(coerce_param("no", TYPE_BOOL), Ok(CoercedValue::Bool(false))));
    assert!(matches!(coerce_param("off", TYPE_BOOL), Ok(CoercedValue::Bool(false))));
}

#[test]
fn test_coerce_uuid() {
    let uuid_str = "550e8400-e29b-41d4-a716-446655440000";
    assert!(matches!(coerce_param(uuid_str, TYPE_UUID), Ok(CoercedValue::Uuid(_))));
    assert!(coerce_param("not-a-uuid", TYPE_UUID).is_err());
}

#[test]
fn test_coerce_datetime() {
    assert!(matches!(
        coerce_param("2024-01-15T10:30:00Z", TYPE_DATETIME),
        Ok(CoercedValue::DateTime(_))
    ));
    assert!(matches!(
        coerce_param("2024-01-15T10:30:00+00:00", TYPE_DATETIME),
        Ok(CoercedValue::DateTime(_))
    ));
    assert!(matches!(
        coerce_param("2024-01-15T10:30:00", TYPE_DATETIME),
        Ok(CoercedValue::NaiveDateTime(_))
    ));
    assert!(coerce_param("not-a-datetime", TYPE_DATETIME).is_err());
}

#[test]
fn test_coerce_decimal() {
    assert!(matches!(coerce_param("123.45", TYPE_DECIMAL), Ok(CoercedValue::Decimal(_))));
    assert!(matches!(coerce_param("-99.99", TYPE_DECIMAL), Ok(CoercedValue::Decimal(_))));
    assert!(coerce_param("not_decimal", TYPE_DECIMAL).is_err());
}

fn text(r: Result<CoercedValue, String>) -> String {
    r.unwrap().to_string_repr()
}

#[test]
fn integers_are_read_strictly() {
    assert!(matches!(coerce_param("+7", TYPE_INT), Ok(CoercedValue::Int(7))));
    assert!(matches!(coerce_param("-0", TYPE_INT), Ok(CoercedValue::Int(0))));
    assert!(matches!(coerce_param("007", TYPE_INT), Ok(CoercedValue::Int(7))));
    assert!(matches!(
        coerce_param("9223372036854775807", TYPE_INT),
        Ok(CoercedValue::Int(i64::MAX))
    ));
    assert!(matches!(
        coerce_param("-9223372036854775808", TYPE_INT),
        Ok(CoercedValue::Int(i64::MIN))
    ));
    assert_eq!(
        coerce_param("9223372036854775808", TYPE_INT).unwrap_err(),
        "Invalid integer '9223372036854775808': number too large to fit in target type"
    );
    assert_eq!(
        coerce_param("-9223372036854775809", TYPE_INT).unwrap_err(),
        "Invalid integer '-9223372036854775809': number too small to fit in target type"
    );
    assert_eq!(
        coerce_param("", TYPE_INT).unwrap_err(),
        "Invalid integer '': cannot parse integer from empty string"
    );
    assert_eq!(
        coerce_param("abc", TYPE_INT).unwrap_err(),
        "Invalid integer 'abc': invalid digit found in string"
    );
    for bad in [" 1", "1 ", "1_000", "+", "-", "1.0", "0x10", "--1", "١"] {
        assert!(coerce_param(bad, TYPE_INT).is_err(), "{}", bad);
    }
}

#[test]
fn floats_are_checked_for_their_form() {
    for good in ["0", "1.", ".5", "-1.5e10", "+2E-3", "1e+5", "00.10", "123456789012345678901234567890"] {
        assert!(is_float_text(good), "{}", good);
        assert_eq!(text(coerce_param(good, TYPE_FLOAT)), good);
        assert!(good.parse::<f64>().is_ok());
    }
    for bad in ["", ".", "+", "e5", "1e", "1e+", "1.2.3", " 1", "1 ", "1f", "0x1", "inf", "NaN", "-infinity", "1_0"] {
        assert!(!is_float_text(bad), "{}", bad);
        assert!(coerce_param(bad, TYPE_FLOAT).is_err(), "{}", bad);
    }
    assert_eq!(
        coerce_param("x", TYPE_FLOAT).unwrap_err(),
        "Invalid float 'x': invalid float literal"
    );
    for word in ["inf", "-Infinity", "+NAN", "nan"] {
        assert_eq!(text(coerce_float(word, true)), word);
        assert!(coerce_float(word, false).is_err());
    }
    assert!(coerce_float("infinite", true).is_err());
}

#[test]
fn booleans_in_any_case() {
    assert!(matches!(coerce_param("", TYPE_BOOL), Ok(CoercedValue::Bool(false))));
    assert!(matches!(coerce_param("YES", TYPE_BOOL), Ok(CoercedValue::Bool(true))));
    assert!(matches!(coerce_param("oFf", TYPE_BOOL), Ok(CoercedValue::Bool(false))));
    assert_eq!(
        coerce_param("maybe", TYPE_BOOL).unwrap_err(),
        "Invalid boolean 'maybe': expected true/false/1/0/yes/no/on/off"
    );
    assert!(coerce_param(" true", TYPE_BOOL).is_err());
}

#[test]
fn strings_and_unknown_types_pass_through() {
    assert!(matches!(coerce_param("a b", TYPE_STRING), Ok(CoercedValue::String(s)) if s == "a b"));
    assert!(matches!(coerce_param("x", 0), Ok(CoercedValue::String(s)) if s == "x"));
    assert!(matches!(coerce_param("x", 200), Ok(CoercedValue::String(s)) if s == "x"));
}

#[test]
fn uuids_must_be_canonical() {
    assert_eq!(
        text(coerce_param("550E8400-E29B-41D4-A716-446655440000", TYPE_UUID)),
        "550e8400-e29b-41d4-a716-446655440000"
    );
    assert!(has_uuid_form("550e8400-e29b-41d4-a716-446655440000"));
    for bad in [
        "550e8400e29b41d4a716446655440000",
        "{550e8400-e29b-41d4-a716-446655440000}",
        "urn:uuid:550e8400-e29b-41d4-a716-446655440000",
        "550e8400-e29b-41d4-a716-44665544000g",
        "550e8400-e29b-41d4-a716-4466554400000",
        "550e8400-e29b-41d4-a716_446655440000",
        "",
    ] {
        assert!(!has_uuid_form(bad), "{}", bad);
        assert!(coerce_param(bad, TYPE_UUID).is_err(), "{}", bad);
    }
    // The reason is that of the parser, where the parser turns the text away.
    assert_eq!(
        coerce_param("x", TYPE_UUID).unwrap_err(),
        format!("Invalid UUID 'x': {}", uuid::Uuid::parse_str("x").unwrap_err())
    );
    assert_eq!(
        coerce_param("550e8400e29b41d4a716446655440000", TYPE_UUID).unwrap_err(),
        "Invalid UUID '550e8400e29b41d4a716446655440000': expected the canonical hyphenated form"
    );
}

#[test]
fn calendar_values_are_kept_in_canonical_text() {
    assert_eq!(
        text(coerce_param("2024-01-15T10:30:00+02:00", TYPE_DATETIME)),
        "2024-01-15T08:30:00+00:00"
    );
    assert_eq!(
        text(coerce_param("2024-01-15T10:30:00.5Z", TYPE_DATETIME)),
        "2024-01-15T10:30:00.500+00:00"
    );
    assert!(matches!(
        coerce_param("2024-01-15 10:30:00", TYPE_DATETIME),
        Ok(CoercedValue::NaiveDateTime(t)) if t == "2024-01-15 10:30:00"
    ));
    assert!(matches!(
        coerce_param("2024-01-15", TYPE_DATETIME),
        Ok(CoercedValue::NaiveDateTime(t)) if t == "2024-01-15 00:00:00"
    ));
    assert_eq!(
        coerce_param("2024-13-01", TYPE_DATETIME).unwrap_err(),
        "Invalid datetime '2024-13-01': expected ISO 8601 format (e.g., 2024-01-15T10:30:00Z)"
    );
    assert!(matches!(coerce_param("2024-02-29", TYPE_DATE), Ok(CoercedValue::Date(t)) if t == "2024-02-29"));
    assert_eq!(
        coerce_param("2023-02-29", TYPE_DATE).unwrap_err(),
        "Invalid date '2023-02-29': input is out of range"
    );
    assert!(matches!(coerce_param("10:30:15", TYPE_TIME), Ok(CoercedValue::Time(t)) if t == "10:30:15"));
    assert!(matches!(coerce_param("10:30", TYPE_TIME), Ok(CoercedValue::Time(t)) if t == "10:30:00"));
    assert!(matches!(coerce_param("10:30:15.250", TYPE_TIME), Ok(CoercedValue::Time(t)) if t == "10:30:15.250"));
    assert_eq!(
        coerce_param("25:00", TYPE_TIME).unwrap_err(),
        "Invalid time '25:00': expected format HH:MM:SS or HH:MM"
    );
    assert!(matches!(coerce_param("0123.4500", TYPE_DECIMAL), Ok(CoercedValue::Decimal(t)) if t == "123.4500"));
    assert_eq!(
        coerce_param("1,5", TYPE_DECIMAL).unwrap_err(),
        "Invalid decimal '1,5': Invalid decimal: unknown character"
    );
}

#[test]
fn values_are_written_back() {
    assert_eq!(CoercedValue::Int(-42).to_string_repr(), "-42");
    assert_eq!(CoercedValue::Int(i64::MIN).to_string_repr(), "-9223372036854775808");
    assert_eq!(CoercedValue::Int(0).to_string_repr(), "0");
    assert_eq!(CoercedValue::Bool(true).to_string_repr(), "true");
    assert_eq!(CoercedValue::Bool(false).to_string_repr(), "false");
    assert_eq!(CoercedValue::String("x y".to_string()).to_string_repr(), "x y");
    assert_eq!(CoercedValue::Float("1.50".to_string()).to_string_repr(), "1.50");
    assert_eq!(CoercedValue::Null.to_string_repr(), "null");
}

#[test]
fn coercion_is_idempotent() {
    let cases: [(&str, u8); 14] = [
        ("+0042", TYPE_INT),
        ("-9223372036854775808", TYPE_INT),
        ("YES", TYPE_BOOL),
        ("", TYPE_BOOL),
        ("off", TYPE_BOOL),
        ("1.50e3", TYPE_FLOAT),
        ("any text", TYPE_STRING),
        ("550E8400-E29B-41D4-A716-446655440000", TYPE_UUID),
        ("2024-01-15T10:30:00+02:00", TYPE_DATETIME),
        ("2024-01-15T10:30:00.5Z", TYPE_DATETIME),
        ("2024-01-15", TYPE_DATETIME),
        ("2024-02-29", TYPE_DATE),
        ("10:30", TYPE_TIME),
        ("0123.4500", TYPE_DECIMAL),
    ];
    for (value, hint) in cases {
        let once = coerce_param(value, hint).unwrap();
        let again = coerce_param(&once.to_string_repr(), hint).unwrap();
        assert_eq!(once.to_string_repr(), again.to_string_repr(), "{}", value);
        assert_eq!(format!("{:?}", once), format!("{:?}", again), "{}", value);
    }
}

#[test]
fn lenient_coercion_never_fails() {
    assert!(matches!(coerce_to_py("42", TYPE_INT), CoercedValue::Int(42)));
    assert!(matches!(coerce_to_py("x", TYPE_INT), CoercedValue::Int(0)));
    assert!(matches!(coerce_to_py("1.5", TYPE_FLOAT), CoercedValue::Float(t) if t == "1.5"));
    assert!(matches!(coerce_to_py("x", TYPE_FLOAT), CoercedValue::Float(t) if t == "0"));
    assert!(matches!(coerce_to_py("On", TYPE_BOOL), CoercedValue::Bool(true)));
    assert!(matches!(coerce_to_py("no", TYPE_BOOL), CoercedValue::Bool(false)));
    assert!(matches!(coerce_to_py("x", TYPE_BOOL), CoercedValue::Bool(false)));
    assert!(matches!(coerce_to_py("x", TYPE_UUID), CoercedValue::String(t) if t == "x"));
}

#[test]
fn typed_parameters_are_validated() {
    let t = types(&[("id", TYPE_INT), ("name", TYPE_STRING), ("flag", TYPE_BOOL)]);
    let (path, query) =
        validate_and_cache_typed_params(&map(&[("id", "42"), ("name", "n")]), &map(&[("flag", "on"), ("free", "x")]), &t)
            .unwrap();
    assert_eq!(path.len(), 1);
    assert!(matches!(path.get("id"), Some(CoercedValue::Int(42))));
    assert_eq!(query.len(), 1);
    assert!(matches!(query.get("flag"), Some(CoercedValue::Bool(true))));
}

#[test]
fn an_invalid_parameter_is_answered_with_422() {
    let t = types(&[("id", TYPE_INT)]);
    let reply =
        validate_and_cache_typed_params(&map(&[("id", "abc")]), &map(&[]), &t).unwrap_err();
    assert_eq!(reply.status, 422);
    assert_eq!(reply.headers, vec![("content-type".to_string(), "application/json".to_string())]);
    assert_eq!(
        String::from_utf8(reply.body).unwrap(),
        r#"{"detail":"Path parameter 'id': Invalid integer 'abc': invalid digit found in string"}"#
    );
    let reply =
        validate_and_cache_typed_params(&map(&[]), &map(&[("id", "1.5")]), &t).unwrap_err();
    assert_eq!(
        String::from_utf8(reply.body).unwrap(),
        r#"{"detail":"Query parameter 'id': Invalid integer '1.5': invalid digit found in string"}"#
    );
}

#[test]
fn every_value_is_checked_for_its_length() {
    let t = types(&[]);
    let long = "x".repeat(MAX_PARAM_LENGTH + 1);
    let fits = "x".repeat(MAX_PARAM_LENGTH);
    assert!(validate_and_cache_typed_params(&map(&[("a", &fits)]), &map(&[("b", &fits)]), &t).is_ok());
    let reply = validate_and_cache_typed_params(&map(&[("a", &long)]), &map(&[]), &t).unwrap_err();
    assert_eq!(reply.status, 422);
    assert_eq!(
        String::from_utf8(reply.body).unwrap(),
        r#"{"detail":"Path parameter 'a': Parameter too long: 4097 bytes (max 4096 bytes)"}"#
    );
    let wide = "\u{e9}".repeat(2049);
    let reply = validate_and_cache_typed_params(&map(&[]), &map(&[("q", &wide)]), &t).unwrap_err();
    assert_eq!(
        String::from_utf8(reply.body).unwrap(),
        r#"{"detail":"Query parameter 'q': Parameter too long: 4098 bytes (max 4096 bytes)"}"#
    );
}

#[test]
fn path_parameters_are_coerced_or_named() {
    let t = types(&[("id", TYPE_INT)]);
    let ok = coerce_path_params(&map(&[("id", "7"), ("slug", "a-b")]), &t).unwrap();
    assert_eq!(ok.len(), 2);
    assert!(matches!(ok.get("id"), Some(CoercedValue::Int(7))));
    assert!(matches!(ok.get("slug"), Some(CoercedValue::String(s)) if s == "a-b"));
    let (name, reason) = coerce_path_params(&map(&[("id", "x"), ("slug", "a")]), &t).unwrap_err();
    assert_eq!(name, "id");
    assert_eq!(reason, "Invalid integer 'x': invalid digit found in string");
}

#[test]
fn messages_are_escaped_for_json() {
    let escaped: String = json_escape("a\"b\\c\nd\u{1}\u{1f}\u{e9}").into_iter().collect();
    assert_eq!(escaped, "a\\\"b\\\\c\\u000ad\\u0001\\u001f\u{e9}");
    let reply = error_422_validation("bad \"x\"");
    assert_eq!(String::from_utf8(reply.body).unwrap(), r#"{"detail":"bad \"x\""}"#);
    assert!(matches!(coerce_param("2024-01-15", TYPE_DATE), Ok(CoercedValue::Date(_))));
}
