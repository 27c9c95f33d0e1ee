use rest_to_a2a::binding::{caller_error_body, ResponseParts, UnknownBinding, UpstreamBinding};
use rest_to_a2a::json::Json;
use serde_json::Value;

fn json(text: &str) -> Json {
    Json::parse(text.as_bytes()).unwrap()
}

fn empty(parts: &ResponseParts) -> bool {
    parts.result.is_none() && parts.error.is_none()
}

#[test]
fn from_str_accepts_aliases() {
    assert_eq!("jsonrpc".parse(), Ok(UpstreamBinding::JsonRpc));
    assert_eq!("JSON-RPC".parse(), Ok(UpstreamBinding::JsonRpc));
    assert_eq!("httpjson".parse(), Ok(UpstreamBinding::HttpJson));
    assert_eq!("http+json".parse(), Ok(UpstreamBinding::HttpJson));
}

#[test]
fn from_str_rejects_unknown() {
    let err = "grpc".parse::<UpstreamBinding>().unwrap_err();
    assert_eq!(err, UnknownBinding("grpc".to_string()));
}

#[test]
fn jsonrpc_frames_envelope() {
    let params = json(r#"{"message":{"messageId":"m1"}}"#);
    let bytes = UpstreamBinding::JsonRpc.frame_request("rid", params);
    let v: Value = serde_json::from_slice(&bytes).unwrap();
    assert_eq!(v["jsonrpc"], "2.0");
    assert_eq!(v["id"], "rid");
    assert_eq!(v["method"], "SendMessage");
    assert_eq!(v["params"]["message"]["messageId"], "m1");
}

#[test]
fn httpjson_frames_bare_params() {
    let params = json(r#"{"message":{"messageId":"m1"}}"#);
    let bytes = UpstreamBinding::HttpJson.frame_request("ignored", params);
    let v: Value = serde_json::from_slice(&bytes).unwrap();
    // No envelope: the body is the payload itself.
    assert!(v.get("jsonrpc").is_none());
    assert_eq!(v["message"]["messageId"], "m1");
}

#[test]
fn jsonrpc_parses_result_and_error() {
    let ok = UpstreamBinding::JsonRpc
        .parse_response(br#"{"jsonrpc":"2.0","id":"1","result":{"task":{"id":"t"}}}"#);
    assert_eq!(ok.result.unwrap().into_value()["task"]["id"], "t");
    assert!(ok.error.is_none());

    let err = UpstreamBinding::JsonRpc
        .parse_response(br#"{"jsonrpc":"2.0","id":"1","error":{"code":-32602}}"#);
    assert!(err.result.is_none());
    assert_eq!(err.error.unwrap().into_value()["code"], -32602);
}

#[test]
fn httpjson_body_is_result() {
    let parts =
        UpstreamBinding::HttpJson.parse_response(br#"{"task":{"id":"t","contextId":"c"}}"#);
    assert_eq!(parts.result.unwrap().into_value()["task"]["contextId"], "c");
    assert!(parts.error.is_none());
}

#[test]
fn httpjson_surfaces_google_rpc_status() {
    let parts = UpstreamBinding::HttpJson
        .parse_response(br#"{"error":{"code":404,"message":"not found"}}"#);
    assert_eq!(parts.error.unwrap().into_value()["code"], 404);
    // The body is still the result.
    assert!(parts.result.is_some());
}

#[test]
fn non_json_response_is_empty_parts() {
    assert!(empty(&ResponseParts::default()));
    assert!(empty(&UpstreamBinding::JsonRpc.parse_response(b"<html>")));
    assert!(empty(&UpstreamBinding::HttpJson.parse_response(b"<html>")));
}

#[test]
fn caller_error_body_shape() {
    let bytes = caller_error_body("missing prompt");
    let v: Value = serde_json::from_slice(&bytes).unwrap();
    assert_eq!(v["error"]["message"], "missing prompt");
    assert_eq!(v["error"]["source"], "rest-to-a2a");
}

#[test]
fn every_alias_is_known_in_any_case_and_padding() {
    for name in ["jsonrpc", "json-rpc", "json_rpc", "  JsonRpc\t"] {
        assert_eq!(name.parse(), Ok(UpstreamBinding::JsonRpc), "{name}");
    }
    for name in ["httpjson", "http+json", "http-json", "HTTP_JSON", "\nhttpjson "] {
        assert_eq!(name.parse(), Ok(UpstreamBinding::HttpJson), "{name}");
    }
}

#[test]
fn unknown_binding_says_what_was_expected() {
    let err = UpstreamBinding::from_name(" gRPC ").unwrap_err();
    assert_eq!(
        err.message(),
        "unknown upstream binding 'grpc' (expected 'jsonrpc' or 'httpjson')"
    );
}

#[test]
fn framed_body_is_compact() {
    let params = json(r#"{ "message" : { "text" : "a \"b\"" } }"#);
    assert_eq!(
        UpstreamBinding::HttpJson.frame_request("x", params),
        br#"{"message":{"text":"a \"b\""}}"#.to_vec()
    );
}

#[test]
fn framed_body_reads_back() {
    let params = json(r#"{"message":{"parts":[{"text":"é"}],"flag":true,"none":null}}"#);
    let body = UpstreamBinding::JsonRpc.frame_request("rid", params.clone());
    let back = Json::parse(&body).unwrap().into_value();
    assert_eq!(back["params"], params.into_value());
}

#[test]
fn jsonrpc_reply_may_have_neither_half() {
    assert!(empty(&UpstreamBinding::JsonRpc.parse_response(b"{}")));
    assert!(empty(&UpstreamBinding::JsonRpc.parse_response(b"[1]")));
    assert!(empty(&UpstreamBinding::JsonRpc.split_response(None)));
    let both = br#"{"result":{"task":{"id":"t"}},"error":{"code":1}}"#;
    assert!(empty(&UpstreamBinding::JsonRpc.parse_response(both)));
    let parts = UpstreamBinding::HttpJson.parse_response(both);
    assert!(parts.result.is_some() && parts.error.is_some());
    let parts = UpstreamBinding::HttpJson.split_response(Some(json("[1]")));
    assert!(parts.result.is_some() && parts.error.is_none());
}
