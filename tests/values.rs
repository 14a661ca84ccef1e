use kenchiku::context::Context;
use kenchiku::values::{
    parse_bool, parse_number, string_to_value_of_type, validate_enum_contains, validator_verdict,
    LuaValues, Resolution, TypedValue, ValidatorReply, ValueErrorKind, ValueMeta,
};

fn meta(value_type: &str, description: &str, default: Option<&str>, choices: Option<Vec<&str>>) -> ValueMeta {
    ValueMeta {
        value_type: value_type.to_string(),
        description: description.to_string(),
        default: default.map(|d| d.to_string()),
        choices: choices.map(|c| c.into_iter().map(|s| s.to_string()).collect()),
    }
}

fn context(values: Vec<(&str, &str)>, metas: Vec<(&str, ValueMeta)>) -> Context {
    let mut ctx = Context::default();
    for (k, v) in values {
        ctx.values.insert(k, v);
    }
    for (k, m) in metas {
        ctx.values_meta.push((k.to_string(), m));
    }
    ctx
}

fn resolved(r: Resolution) -> TypedValue {
    match r {
        Resolution::Resolved(v) => v,
        Resolution::Failed(e) => panic!("unexpected failure: {}", e.message()),
        Resolution::Prompt(p) => panic!("unexpected prompt for {}", p.id),
    }
}

fn failure(r: Resolution) -> String {
    match r {
        Resolution::Failed(e) => e.message(),
        _ => panic!("expected a failure"),
    }
}

#[test]
fn test_get_existing_string_value() {
    let ctx = context(vec![("name", "John")], vec![("name", meta("string", "User name", None, None))]);
    match resolved(LuaValues::get(&ctx, "name", true)) {
        TypedValue::Text(s) => assert_eq!(s, "John"),
        _ => panic!("expected a string"),
    }
}

#[test]
fn test_get_existing_number_value() {
    let ctx = context(vec![("age", "25")], vec![("age", meta("number", "User age", None, None))]);
    assert!(matches!(resolved(LuaValues::get(&ctx, "age", true)), TypedValue::Number(25)));
}

#[test]
fn test_get_existing_bool_value() {
    let ctx = context(vec![("enabled", "true")], vec![("enabled", meta("bool", "Feature flag", None, None))]);
    assert!(matches!(resolved(LuaValues::get(&ctx, "enabled", true)), TypedValue::Bool(true)));
}

#[test]
fn test_get_existing_enum_value() {
    let ctx = context(
        vec![("color", "red")],
        vec![("color", meta("enum", "Color choice", None, Some(vec!["red", "green", "blue"])))],
    );
    match resolved(LuaValues::get(&ctx, "color", true)) {
        TypedValue::Text(s) => assert_eq!(s, "red"),
        _ => panic!("expected a string"),
    }
}

#[test]
fn test_get_enum_value_invalid_choice() {
    let ctx = context(
        vec![("color", "yellow")],
        vec![("color", meta("enum", "Color choice", None, Some(vec!["red", "green", "blue"])))],
    );
    let err = failure(LuaValues::get(&ctx, "color", true));
    assert!(err.contains("Invalid choice for enum"));
}

#[test]
fn test_get_default_enum_value_invalid() {
    let ctx = context(
        vec![],
        vec![("color", meta("enum", "Color choice", Some("yellow"), Some(vec!["red", "green", "blue"])))],
    );
    let request = match LuaValues::get(&ctx, "color", true) {
        Resolution::Prompt(p) => p,
        _ => panic!("expected a prompt"),
    };
    assert_eq!(request.default.as_deref(), Some("yellow"));
    // The prompt answers with the empty string.
    let result = LuaValues::answer(&ctx, "color", "");
    assert!(result.is_err());
    let err = result.err().unwrap().message();
    assert!(err.contains("Invalid choice for enum"));
}

#[test]
fn test_prompt_for_value() {
    let ctx = context(vec![], vec![]);
    let err = failure(LuaValues::get(&ctx, "name", true));
    assert!(err.contains("No value named name defined"));
    let answered = LuaValues::answer(&ctx, "name", "PromptedValue");
    assert!(answered.err().unwrap().message().contains("No value named name defined"));
}

#[test]
fn test_get_nonexistent_value() {
    let ctx = context(vec![], vec![]);
    let err = failure(LuaValues::get(&ctx, "nonexistent", true));
    assert!(err.contains("No value named nonexistent defined"));
}

#[test]
fn test_invalid_number_parsing() {
    let ctx = context(vec![("age", "not-a-number")], vec![("age", meta("number", "User age", None, None))]);
    let err = failure(LuaValues::get(&ctx, "age", true));
    assert!(err.contains("failed to parse value as a number"));
}

#[test]
fn test_invalid_bool_parsing() {
    let ctx = context(vec![("enabled", "not-a-bool")], vec![("enabled", meta("bool", "Feature flag", None, None))]);
    let err = failure(LuaValues::get(&ctx, "enabled", true));
    assert!(err.contains("failed to parse value as a bool"));
}

#[test]
fn test_enum_without_choices() {
    let ctx = context(vec![("choice", "something")], vec![("choice", meta("enum", "Some choice", None, None))]);
    let err = failure(LuaValues::get(&ctx, "choice", true));
    assert!(err.contains("no choices on enum type value"));
}

#[test]
fn test_unknown_type_returns_nil() {
    let ctx = context(vec![("custom", "somevalue")], vec![("custom", meta("custom_type", "Custom type", None, None))]);
    assert!(matches!(resolved(LuaValues::get(&ctx, "custom", true)), TypedValue::Nil));
}

#[test]
fn test_multiple_value_gets() {
    let ctx = context(
        vec![("name", "Alice"), ("age", "30"), ("active", "true")],
        vec![
            ("name", meta("string", "User name", None, None)),
            ("age", meta("number", "User age", None, None)),
            ("active", meta("bool", "Active status", None, None)),
        ],
    );
    match resolved(LuaValues::get(&ctx, "name", true)) {
        TypedValue::Text(s) => assert_eq!(s, "Alice"),
        _ => panic!("expected a string"),
    }
    assert!(matches!(resolved(LuaValues::get(&ctx, "age", true)), TypedValue::Number(30)));
    assert!(matches!(resolved(LuaValues::get(&ctx, "active", true)), TypedValue::Bool(true)));
}

#[test]
fn test_validation_success_bool() {
    let ctx = context(vec![("age", "25")], vec![("age", meta("number", "User age", None, None))]);
    let verdict = validator_verdict(ValidatorReply::Accept);
    assert!(verdict.is_ok());
    assert!(matches!(resolved(LuaValues::get(&ctx, "age", verdict.is_ok())), TypedValue::Number(25)));
}

#[test]
fn test_validation_failure_bool() {
    let ctx = context(vec![("age", "25")], vec![("age", meta("number", "User age", None, None))]);
    let verdict = validator_verdict(ValidatorReply::Reject);
    let err = verdict.clone().err().unwrap();
    assert!(err.contains("rejected value"));
    // A rejected value counts as never supplied: the caller is asked again.
    assert!(matches!(LuaValues::get(&ctx, "age", verdict.is_ok()), Resolution::Prompt(_)));
}

#[test]
fn test_validation_failure_string() {
    let ctx = context(vec![("age", "25")], vec![("age", meta("number", "User age", None, None))]);
    let verdict = validator_verdict(ValidatorReply::Message("Custom error".to_string()));
    assert!(verdict.clone().err().unwrap().contains("Custom error"));
    assert!(matches!(LuaValues::get(&ctx, "age", verdict.is_ok()), Resolution::Prompt(_)));
}

#[test]
fn validator_other_reply_is_rejection() {
    let verdict = validator_verdict(ValidatorReply::Other);
    assert_eq!(verdict.err().unwrap(), "Invalid return value from validate fn");
}

#[test]
fn enum_value_is_always_a_choice() {
    let choices = Some(vec!["red".to_string(), "green".to_string()]);
    for candidate in ["red", "green", "yellow", "", "Red"] {
        match validate_enum_contains(&choices, candidate, "color") {
            Ok(TypedValue::Text(s)) => assert!(choices.as_ref().unwrap().contains(&s)),
            Ok(_) => panic!("an enum resolves to text"),
            Err(e) => assert_eq!(e.kind, ValueErrorKind::InvalidChoice),
        }
    }
    let err = validate_enum_contains(&choices, "yellow", "color").err().unwrap();
    assert_eq!(err.message(), "on value color: Invalid choice for enum: yellow");
}

#[test]
fn repeated_get_returns_same_value() {
    let ctx = context(vec![("age", "41")], vec![("age", meta("number", "User age", None, None))]);
    let first = resolved(LuaValues::get(&ctx, "age", true));
    let second = resolved(LuaValues::get(&ctx, "age", true));
    assert!(matches!((first, second), (TypedValue::Number(41), TypedValue::Number(41))));
}

#[test]
fn supplied_value_wins_over_default() {
    let ctx = context(vec![("name", "given")], vec![("name", meta("string", "Name", Some("fallback"), None))]);
    match resolved(LuaValues::get(&ctx, "name", true)) {
        TypedValue::Text(s) => assert_eq!(s, "given"),
        _ => panic!("expected a string"),
    }
}

#[test]
fn prompt_carries_declaration() {
    let ctx = context(vec![], vec![("color", meta("enum", "Pick one", Some("red"), Some(vec!["red", "blue"])))]);
    match LuaValues::get(&ctx, "color", true) {
        Resolution::Prompt(p) => {
            assert_eq!(p.id, "color");
            assert_eq!(p.value_type, "enum");
            assert_eq!(p.description, "Pick one");
            assert_eq!(p.default.as_deref(), Some("red"));
            assert_eq!(p.choices, Some(vec!["red".to_string(), "blue".to_string()]));
        }
        _ => panic!("expected a prompt"),
    }
}

#[test]
fn number_parsing_follows_usize_rules() {
    assert_eq!(parse_number("0"), Some(0));
    assert_eq!(parse_number("+7"), Some(7));
    assert_eq!(parse_number("007"), Some(7));
    assert_eq!(parse_number("-5"), Some(-5));
    assert_eq!(parse_number("-0"), Some(0));
    assert_eq!(parse_number("9223372036854775807"), Some(i64::MAX));
    assert_eq!(parse_number("-9223372036854775808"), Some(i64::MIN));
    assert_eq!(parse_number("9223372036854775808"), None);
    assert_eq!(parse_number("-9223372036854775809"), None);
    assert_eq!(parse_number("18446744073709551616"), None);
    assert_eq!(parse_number("99999999999999999999x"), None);
    assert_eq!(parse_number(""), None);
    assert_eq!(parse_number("+"), None);
    assert_eq!(parse_number("-"), None);
    assert_eq!(parse_number("--1"), None);
    assert_eq!(parse_number("+-1"), None);
    assert_eq!(parse_number(" 1"), None);
    assert_eq!(parse_number("1.5"), None);
}

#[test]
fn negative_numbers_resolve() {
    let ctx = context(vec![("offset", "-5")], vec![("offset", meta("number", "Offset", None, None))]);
    assert!(matches!(resolved(LuaValues::get(&ctx, "offset", true)), TypedValue::Number(-5)));
}

#[test]
fn bool_parsing_is_exact() {
    assert_eq!(parse_bool("true"), Some(true));
    assert_eq!(parse_bool("false"), Some(false));
    assert_eq!(parse_bool("True"), None);
    assert_eq!(parse_bool("1"), None);
}

#[test]
fn coercion_errors_name_the_value() {
    let e = string_to_value_of_type("number", "abc", &None, "age").err().unwrap();
    assert_eq!(e.kind, ValueErrorKind::NotANumber);
    assert_eq!(e.message(), "on value age: failed to parse value as a number");
    let e = string_to_value_of_type("bool", "yes", &None, "flag").err().unwrap();
    assert_eq!(e.message(), "on value flag: failed to parse value as a bool");
    assert!(matches!(string_to_value_of_type("string", "x", &None, "s"), Ok(TypedValue::Text(_))));
}
