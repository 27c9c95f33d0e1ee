use std::collections::HashMap;

use pdk::script::Value;
use rest_to_a2a::dataweave::{
    value_to_json, value_to_string, NumberText, ScriptNumber, ScriptValue,
};

fn written(text: &str) -> NumberText {
    NumberText::new(text.to_string()).unwrap()
}

#[test]
fn string_trimmed_to_option() {
    assert_eq!(
        value_to_string(ScriptValue::String("hi".into())),
        Some("hi".into())
    );
    assert_eq!(value_to_string(ScriptValue::String("   ".into())), None);
    assert_eq!(value_to_string(ScriptValue::String("".into())), None);
    // White space around a name goes, so that names compare cleanly.
    assert_eq!(
        value_to_string(ScriptValue::String("  conv-1\n".into())),
        Some("conv-1".into())
    );
}

#[test]
fn integral_number_has_no_decimal() {
    assert_eq!(
        value_to_string(ScriptValue::Number(ScriptNumber::Integral(42))),
        Some("42".into())
    );
    assert_eq!(
        value_to_string(ScriptValue::Number(ScriptNumber::Written(written("3.5")))),
        Some("3.5".into())
    );
}

#[test]
fn bool_stringified() {
    assert_eq!(
        value_to_string(ScriptValue::Bool(true)),
        Some("true".into())
    );
}

#[test]
fn null_and_containers_are_none() {
    assert_eq!(value_to_string(ScriptValue::Null), None);
    assert_eq!(value_to_string(ScriptValue::Array), None);
    assert_eq!(value_to_string(ScriptValue::Object), None);
}

#[test]
fn value_to_json_roundtrip() {
    let mut map = HashMap::new();
    map.insert("k".to_string(), Value::String("v".into()));
    let json = value_to_json(Value::Object(map)).into_value();
    assert_eq!(json["k"], "v");
}

#[test]
fn whole_numbers_are_written_out() {
    for number in [0, 7, 10, 99, 100, -1, -10, 1234567890, i64::MAX, i64::MIN] {
        assert_eq!(
            value_to_string(ScriptValue::Number(ScriptNumber::Integral(number))),
            Some(number.to_string())
        );
    }
}

#[test]
fn false_is_a_text_too() {
    assert_eq!(
        value_to_string(ScriptValue::Bool(false)),
        Some("false".into())
    );
}

#[test]
fn white_space_is_unicode_white_space() {
    assert_eq!(
        value_to_string(ScriptValue::String("\u{a0}\u{2003}x y\u{3000}\u{85}".into())),
        Some("x y".into())
    );
    // A zero width space is none.
    assert_eq!(
        value_to_string(ScriptValue::String("\u{200b}".into())),
        Some("\u{200b}".into())
    );
}

#[test]
fn every_kind_of_value_becomes_json() {
    let list = Value::Array(vec![Value::Null, Value::Bool(true), Value::Number(1.5)]);
    assert_eq!(
        value_to_json(list).into_value(),
        serde_json::from_str::<serde_json::Value>("[null,true,1.5]").unwrap()
    );
}

#[test]
fn written_number_holds_no_white_space() {
    for text in ["", " ", "1 5", "3.5\n", "\u{3000}7"] {
        assert_eq!(NumberText::new(text.to_string()), None);
    }
    for text in ["3.5", "-0.25", "NaN", "10000000000000000000"] {
        assert_eq!(written(text).clone().into_text(), text);
    }
}

#[test]
fn name_stands_for_itself() {
    for value in [
        ScriptValue::Bool(false),
        ScriptValue::Number(ScriptNumber::Integral(-7)),
        ScriptValue::Number(ScriptNumber::Written(written("3.5"))),
        ScriptValue::String(" a b ".into()),
    ] {
        let name = value_to_string(value).unwrap();
        assert!(!name.is_empty());
        assert_eq!(name, name.trim());
        assert_eq!(value_to_string(ScriptValue::String(name.clone())), Some(name));
    }
}
