use rest_to_a2a::digest::to_hex;
use rest_to_a2a::json::{Json, JsonObject};
use rest_to_a2a::text::{contains_text, same_text, split_text};

#[test]
fn hexadecimal_has_two_digits_for_each_byte() {
    assert_eq!(to_hex(&[]), "");
    assert_eq!(to_hex(&[0x00, 0x9a, 0xff]), "009aff");
}

#[test]
fn texts_are_the_same_character_by_character() {
    assert!(same_text("", ""));
    assert!(same_text("caf\u{e9}", "caf\u{e9}"));
    assert!(!same_text("caf\u{e9}", "cafe"));
    assert!(!same_text("a", "b"));
}

#[test]
fn text_is_found_anywhere() {
    assert!(contains_text("abcabd", "abd"));
    assert!(contains_text("abc", ""));
    assert!(contains_text("", ""));
    assert!(!contains_text("abc", "abcd"));
    assert!(!contains_text("", "a"));
}

#[test]
fn split_gives_one_piece_more_than_there_are_dots() {
    assert_eq!(split_text("", '.'), vec![""]);
    assert_eq!(split_text("a.b", '.'), vec!["a", "b"]);
    assert_eq!(split_text(".a..", '.'), vec!["", "a", "", ""]);
}

#[test]
fn object_keeps_the_last_value_of_a_name() {
    let mut object = JsonObject::new();
    object.insert("a".into(), Json::Bool(true));
    object.insert("b".into(), Json::Null);
    object.insert("a".into(), Json::Bool(false));
    assert!(matches!(object.get("a"), Some(Json::Bool(false))));
    assert!(matches!(object.remove("a"), Some(Json::Bool(false))));
    assert!(object.get("a").is_none());
    assert!(object.remove("a").is_none());
    assert_eq!(Json::Object(object).to_text(), br#"{"b":null}"#.to_vec());
}

#[test]
fn json_reads_and_writes_every_kind_of_value() {
    let text = r#"{"a":[null,true,"x\n",1,-2.5,{}],"b":"é"}"#.as_bytes();
    let json = Json::parse(text).unwrap();
    let value: serde_json::Value = serde_json::from_slice(text).unwrap();
    assert_eq!(json.clone().into_value(), value);
    assert_eq!(json.to_text(), serde_json::to_vec(&value).unwrap());
    assert_eq!(Json::from_value(value.clone()).into_value(), value);
    assert!(Json::parse(b"{").is_none());
    assert!(Json::parse(b"1 2").is_none());
    assert_eq!(json.get("b").unwrap().as_str(), Some("\u{e9}"));
    assert!(json.get("a").unwrap().at(5).is_some());
    assert!(json.get("a").unwrap().at(6).is_none());
    assert!(json.at(0).is_none());
}

#[test]
fn json_reads_within_a_depth() {
    let nested = |depth: usize| format!("{}{}", "[".repeat(depth), "]".repeat(depth));
    let text = nested(127);
    assert_eq!(
        Json::parse(text.as_bytes()).unwrap().to_text(),
        text.into_bytes()
    );
    assert!(Json::parse(nested(128).as_bytes()).is_none());
}

#[test]
fn trees_with_integers_read_back() {
    for text in [
        "18446744073709551615",
        "-9223372036854775808",
        r#"{"a":[0,-1,{"b":null}],"c":"x"}"#,
        "[]",
    ] {
        let json = Json::parse(text.as_bytes()).unwrap();
        assert!(json.reads_back(), "{text}");
        let back = Json::parse(&json.to_text()).unwrap();
        assert_eq!(back.into_value(), json.into_value());
    }
    for text in ["1.5", "[-0]", r#"{"a":[1e3]}"#, "18446744073709551616"] {
        assert!(!Json::parse(text.as_bytes()).unwrap().reads_back(), "{text}");
    }
    let deep = format!("{}{}", "[".repeat(127), "]".repeat(127));
    let deep = Json::parse(deep.as_bytes()).unwrap();
    assert!(deep.reads_back());
    assert!(!Json::Array(vec![deep]).reads_back());
}
