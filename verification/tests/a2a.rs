use rest_to_a2a::a2a::{
    build_send_message, build_send_message_with_metadata, classify_state, generate_message_id,
    message_id_of, parse_result, Continuation, ParsedResult, SendConfiguration, StateClass,
    ROLE_USER, SEND_MESSAGE_METHOD,
};
use rest_to_a2a::json::Json;
use serde_json::Value;

fn json(text: &str) -> Json {
    Json::parse(text.as_bytes()).unwrap()
}

fn value(text: &str) -> Value {
    serde_json::from_str(text).unwrap()
}

#[test]
fn send_message_fresh_shape() {
    let params =
        build_send_message("hello", "mid1", &Continuation::default(), None).into_value();
    assert_eq!(params["message"]["messageId"], "mid1");
    assert_eq!(params["message"]["role"], "ROLE_USER");
    assert_eq!(params["message"]["parts"][0]["text"], "hello");
    assert!(params["message"].get("taskId").is_none());
    assert!(params["message"].get("contextId").is_none());
    assert!(params.get("configuration").is_none());
}

#[test]
fn send_message_injects_continuation() {
    let cont = Continuation {
        task_id: Some("t1".into()),
        context_id: Some("c1".into()),
    };
    let params = build_send_message("hi", "mid2", &cont, None).into_value();
    assert_eq!(params["message"]["taskId"], "t1");
    assert_eq!(params["message"]["contextId"], "c1");
}

#[test]
fn send_message_configuration_inverts_blocking() {
    let cfg = SendConfiguration {
        accepted_output_modes: Some(vec!["text/plain".into()]),
        blocking: true,
    };
    let params = build_send_message("hi", "m", &Continuation::default(), Some(&cfg)).into_value();
    assert_eq!(
        params["configuration"]["acceptedOutputModes"][0],
        "text/plain"
    );
    // blocking: true is returnImmediately: false.
    assert_eq!(params["configuration"]["returnImmediately"], false);
}

#[test]
fn classify_canonical_and_legacy() {
    assert_eq!(
        classify_state("TASK_STATE_WORKING"),
        StateClass::Continuable
    );
    assert_eq!(
        classify_state("TASK_STATE_INPUT_REQUIRED"),
        StateClass::Continuable
    );
    assert_eq!(classify_state("TASK_STATE_COMPLETED"), StateClass::Terminal);
    assert_eq!(classify_state("input-required"), StateClass::Continuable);
    assert_eq!(classify_state("failed"), StateClass::Terminal);
    assert_eq!(
        classify_state("TASK_STATE_UNSPECIFIED"),
        StateClass::Unknown
    );
    assert_eq!(classify_state("bogus"), StateClass::Unknown);
}

#[test]
fn parse_task_result() {
    let result = json(
        r#"{"task":{"id":"t9","contextId":"c9","status":{"state":"TASK_STATE_INPUT_REQUIRED"}}}"#,
    );
    let parsed = parse_result(&result);
    assert_eq!(parsed.task_id.as_deref(), Some("t9"));
    assert_eq!(parsed.context_id.as_deref(), Some("c9"));
    assert_eq!(parsed.class(), StateClass::Continuable);
    assert_eq!(parsed.continuation().task_id.as_deref(), Some("t9"));
}

#[test]
fn parse_bare_task_fallback() {
    let result = json(r#"{"id":"t1","status":{"state":"TASK_STATE_COMPLETED"}}"#);
    let parsed = parse_result(&result);
    assert_eq!(parsed.task_id.as_deref(), Some("t1"));
    assert_eq!(parsed.class(), StateClass::Terminal);
}

#[test]
fn parse_message_result_is_terminal() {
    let result = json(r#"{"message":{"messageId":"m1","contextId":"c1"}}"#);
    let parsed = parse_result(&result);
    assert_eq!(parsed.state, None);
    assert_eq!(parsed.context_id.as_deref(), Some("c1"));
    assert_eq!(parsed.class(), StateClass::Terminal);
}

#[test]
fn parse_unknown_shape_default() {
    let parsed = parse_result(&json(r#"{"weird":true}"#));
    assert_eq!(parsed, ParsedResult::default());
    assert_eq!(parsed.class(), StateClass::Terminal);
}

#[test]
fn message_id_deterministic_and_hex() {
    let a = generate_message_id(b"seed-1");
    let b = generate_message_id(b"seed-1");
    let c = generate_message_id(b"seed-2");
    assert_eq!(a, b);
    assert_ne!(a, c);
    assert_eq!(a.len(), 32);
    assert!(a.chars().all(|ch| ch.is_ascii_hexdigit()));
}

#[test]
fn message_id_is_the_first_half_of_the_digest() {
    assert_eq!(generate_message_id(b"seed-1"), "0eb026731d9ea3f870511f8c18daeb81");
    assert_eq!(message_id_of(&[0x00, 0x0f, 0xa5, 0xff]), "000fa5ff");
    let long: Vec<u8> = (0..32).collect();
    assert_eq!(message_id_of(&long), "000102030405060708090a0b0c0d0e0f");
}

#[test]
fn every_listed_state_is_classified() {
    for state in [
        "TASK_STATE_SUBMITTED",
        "TASK_STATE_WORKING",
        "TASK_STATE_INPUT_REQUIRED",
        "TASK_STATE_AUTH_REQUIRED",
        "submitted",
        "working",
        "input-required",
        "auth-required",
    ] {
        assert_eq!(classify_state(state), StateClass::Continuable, "{state}");
    }
    for state in [
        "TASK_STATE_COMPLETED",
        "TASK_STATE_FAILED",
        "TASK_STATE_CANCELED",
        "TASK_STATE_REJECTED",
        "completed",
        "failed",
        "canceled",
        "cancelled",
        "rejected",
    ] {
        assert_eq!(classify_state(state), StateClass::Terminal, "{state}");
    }
    // The names are exact: neither case nor white space is overlooked.
    assert_eq!(classify_state("Working"), StateClass::Unknown);
    assert_eq!(classify_state(" working"), StateClass::Unknown);
    assert_eq!(classify_state(""), StateClass::Unknown);
}

#[test]
fn whole_send_is_as_documented() {
    let cont = Continuation {
        task_id: Some("t1".into()),
        context_id: None,
    };
    let cfg = SendConfiguration {
        accepted_output_modes: Some(vec!["text/plain".into(), "image/png".into()]),
        blocking: false,
    };
    let params = build_send_message("hi", "m", &cont, Some(&cfg)).into_value();
    assert_eq!(
        params,
        value(
            r#"{"message":{"messageId":"m","role":"ROLE_USER","parts":[{"text":"hi"}],
                "taskId":"t1"},
                "configuration":{"acceptedOutputModes":["text/plain","image/png"],
                "returnImmediately":true}}"#
        )
    );
    assert_eq!(ROLE_USER, "ROLE_USER");
    assert_eq!(SEND_MESSAGE_METHOD, "SendMessage");
}

#[test]
fn configuration_without_modes_says_only_when_to_return() {
    let params =
        build_send_message("hi", "m", &Continuation::default(), Some(&SendConfiguration::default()));
    assert_eq!(
        params.into_value()["configuration"],
        value(r#"{"returnImmediately":true}"#)
    );
}

#[test]
fn object_metadata_is_attached() {
    let params = build_send_message_with_metadata(
        "hi",
        "m",
        &Continuation::default(),
        None,
        Some(json(r#"{"tenant":"acme","n":3}"#)),
    )
    .into_value();
    assert_eq!(params["message"]["metadata"], value(r#"{"tenant":"acme","n":3}"#));
}

#[test]
fn other_metadata_is_left_out() {
    for text in ["null", "true", "7", "\"x\"", "[1]"] {
        let params = build_send_message_with_metadata(
            "hi",
            "m",
            &Continuation::default(),
            None,
            Some(json(text)),
        )
        .into_value();
        assert!(params["message"].get("metadata").is_none(), "{text}");
    }
}

#[test]
fn task_without_a_state_is_over() {
    let parsed = parse_result(&json(r#"{"task":{"id":"t"}}"#));
    assert_eq!(parsed.state, None);
    assert_eq!(parsed.task_id.as_deref(), Some("t"));
    assert_eq!(parsed.class(), StateClass::Terminal);
    // A state that is no string is none.
    let parsed = parse_result(&json(r#"{"task":{"id":7,"status":{"state":1}}}"#));
    assert_eq!(parsed, ParsedResult::default());
    // The member `task` goes before the status beside it.
    let parsed = parse_result(&json(
        r#"{"id":"outer","status":{"state":"working"},"task":{"id":"inner","status":{"state":"x"}}}"#,
    ));
    assert_eq!(parsed.task_id.as_deref(), Some("inner"));
    assert_eq!(parsed.class(), StateClass::Unknown);
}

#[test]
fn message_result_tells_the_task_it_belongs_to() {
    let parsed = parse_result(&json(r#"{"message":{"taskId":"t","contextId":"c"}}"#));
    assert_eq!(
        parsed.continuation(),
        Continuation {
            task_id: Some("t".into()),
            context_id: Some("c".into())
        }
    );
}

#[test]
fn continuation_is_empty_without_identifiers() {
    assert!(Continuation::default().is_empty());
    let one = Continuation {
        task_id: None,
        context_id: Some("c".into()),
    };
    assert!(!one.is_empty());
    assert_eq!(one.clone(), one);
}
