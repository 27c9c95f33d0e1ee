use rest_to_a2a::json::Json;
use rest_to_a2a::jsonrpc::{build_request, ResponseEnvelope, JSONRPC_VERSION};

fn json(text: &str) -> Json {
    Json::parse(text.as_bytes()).unwrap()
}

#[test]
fn request_envelope_shape() {
    let env = build_request("abc", "SendMessage", json(r#"{"message":{"x":1}}"#)).into_value();
    assert_eq!(env["jsonrpc"], "2.0");
    assert_eq!(env["id"], "abc");
    assert_eq!(env["method"], "SendMessage");
    assert_eq!(env["params"]["message"]["x"], 1);
    assert_eq!(JSONRPC_VERSION, "2.0");
}

#[test]
fn parse_result_envelope() {
    let body = br#"{"jsonrpc":"2.0","id":"abc","result":{"task":{"id":"t1"}}}"#;
    let env = ResponseEnvelope::parse(body).unwrap();
    assert!(env.error.is_none());
    assert_eq!(env.result.unwrap().into_value()["task"]["id"], "t1");
}

#[test]
fn parse_error_envelope() {
    let body = br#"{"jsonrpc":"2.0","id":"abc","error":{"code":-32602,"message":"bad"}}"#;
    let env = ResponseEnvelope::parse(body).unwrap();
    assert!(env.result.is_none());
    assert_eq!(env.error.unwrap().into_value()["code"], -32602);
}

#[test]
fn parse_non_json_is_none() {
    assert!(ResponseEnvelope::parse(b"not json").is_none());
}

#[test]
fn parse_empty_object_both_none() {
    let env = ResponseEnvelope::parse(b"{}").unwrap();
    assert!(env.result.is_none() && env.error.is_none());
}

#[test]
fn null_halves_are_there() {
    let env = ResponseEnvelope::from_json(&json(r#"{"result":null}"#));
    assert!(matches!(env.result, Some(Json::Null)));
    let none = ResponseEnvelope::default();
    assert!(none.result.is_none() && none.error.is_none());
}

#[test]
fn reply_with_both_halves_has_none() {
    let body = br#"{"jsonrpc":"2.0","id":"1","result":1,"error":2}"#;
    let env = ResponseEnvelope::parse(body).unwrap();
    assert!(env.result.is_none() && env.error.is_none());
    // A member that is null is there.
    let env = ResponseEnvelope::from_json(&json(r#"{"result":null,"error":{}}"#));
    assert!(env.result.is_none() && env.error.is_none());
}
