use std::collections::HashMap;

use pdk::script::{Expression, Format, Input, Script, ScriptingEngine};
use rest_to_a2a::cache::{CacheError, CacheKey, ConversationEntry, Step, StoreMode};
use rest_to_a2a::config::{
    default_request_error_status, default_upstream_binding, A2aConfiguration, CacheConfig, Config,
    ExplicitConfig, ResponseConfig, ResponseField,
};
use rest_to_a2a::config_map::PolicyConfig;
use rest_to_a2a::continuation::RequestContinuation;
use rest_to_a2a::dataweave::{ScriptNumber, ScriptValue};
use rest_to_a2a::json::Json;
use rest_to_a2a::policy::{
    active_selectors, begin_request, build_failure, handle_reply, id_seed, mapped_body,
    plan_response, read_reply, shape_fields, time_of_lookup, time_of_record, Evaluated, Forward,
    RequestContext, RequestStep, ResponsePlan, Shaping,
};
use serde_json::Value;

const INPUT_REQUIRED: &[u8] = br#"{"jsonrpc":"2.0","id":1,"result":{"task":{
    "id":"task-42","contextId":"ctx-7","status":{"state":"TASK_STATE_INPUT_REQUIRED",
    "update":{"role":"ROLE_AGENT","parts":[{"text":"what is your order number?"}]}}}}}"#;

const COMPLETED: &[u8] = br#"{"jsonrpc":"2.0","id":1,"result":{"task":{
    "id":"task-99","contextId":"ctx-9","status":{"state":"TASK_STATE_COMPLETED"}}}}"#;

fn script() -> Script {
    let expression: Expression = serde_json::from_str("\"\"").unwrap();
    ScriptingEngine::script(&expression)
        .input(Input::Attributes)
        .input(Input::Payload(Format::Json))
        .compile()
        .unwrap()
}

fn config() -> Config {
    Config {
        upstream_binding: default_upstream_binding(),
        prompt_selector: script(),
        enable_task_continuation: true,
        continuation_mode: "cache".into(),
        cache_config: Some(CacheConfig {
            context_key_selector: Some(script()),
            distributed: false,
            conversation_ttl_seconds: 3600,
        }),
        explicit_config: Some(ExplicitConfig {
            task_id_selector: Some(script()),
            context_id_selector: Some(script()),
        }),
        response_type: "raw".into(),
        custom_response: None,
        response_config: None,
        a2a_configuration: None,
        metadata_selector: None,
        request_error_status: default_request_error_status(),
    }
}

fn policy(config: Config) -> PolicyConfig {
    PolicyConfig::from_generated(config).unwrap()
}

fn with_mode(mode: &str) -> PolicyConfig {
    policy(Config {
        continuation_mode: mode.into(),
        ..config()
    })
}

fn with_fields(binding: &str, fields: &[(&str, &str)]) -> PolicyConfig {
    policy(Config {
        upstream_binding: binding.into(),
        continuation_mode: "none".into(),
        response_type: "fields".into(),
        response_config: Some(ResponseConfig {
            response_mapping: Some(script()),
            response_fields: fields
                .iter()
                .map(|(name, selector)| ResponseField {
                    name: name.to_string(),
                    selector: selector.to_string(),
                })
                .collect(),
        }),
        ..config()
    })
}

fn text(value: &str) -> Option<ScriptValue> {
    Some(ScriptValue::String(value.to_string()))
}

fn asked(prompt: &str, conversation: Option<&str>) -> Evaluated {
    Evaluated {
        prompt: text(prompt),
        context_key: conversation.and_then(text),
        task_id: None,
        context_id: None,
        metadata: None,
    }
}

fn body(bytes: &[u8]) -> Value {
    serde_json::from_slice(bytes).unwrap()
}

fn forwarded(step: RequestStep) -> Forward {
    match step {
        RequestStep::Forward(forward) => forward,
        other => panic!("{other:?}"),
    }
}

/// A store in memory that nobody else writes to.
#[derive(Default)]
struct Store {
    data: HashMap<String, (ConversationEntry, u64)>,
}

impl Store {
    fn read(&self, key: &str) -> Option<(ConversationEntry, String)> {
        self.data
            .get(key)
            .map(|(entry, version)| (entry.clone(), version.to_string()))
    }

    fn run(&mut self, mut step: Step) -> Result<(), CacheError> {
        loop {
            step = match step {
                Step::Read(waiting) => {
                    let reading = Ok(self.read(waiting.key()));
                    waiting.after(reading)
                }
                Step::Write(waiting) => {
                    let current = self.data.get(waiting.key()).map(|(_, version)| *version);
                    let admitted = match (waiting.mode(), current) {
                        (StoreMode::Absent, None) => true,
                        (StoreMode::Cas(expected), Some(version)) => {
                            *expected == version.to_string()
                        }
                        _ => false,
                    };
                    let outcome = if admitted {
                        let next: u64 = current.unwrap_or(0) + 1;
                        self.data.insert(
                            waiting.key().to_string(),
                            (waiting.entry().clone(), next),
                        );
                        Ok(())
                    } else {
                        Err(CacheError::CasConflict)
                    };
                    waiting.after(outcome)
                }
                Step::Delete(waiting) => {
                    self.data.remove(waiting.key());
                    waiting.after(Ok(()))
                }
                Step::Finished(outcome) => return outcome,
            };
        }
    }

    /// One turn: the request as it is forwarded, and the reply recorded.
    fn turn(
        &mut self,
        config: &PolicyConfig,
        evaluated: Evaluated,
        reply: &[u8],
        now_millis: u64,
    ) -> Value {
        let step = begin_request(config, "req".to_string(), evaluated, true);
        let forward = match step {
            RequestStep::Lookup(pending) => {
                let reading = Ok(self.read(pending.key()));
                pending.finish(config, &reading, now_millis)
            }
            other => forwarded(other),
        };
        let handled = read_reply(config, &forward.context, reply, true, now_millis).unwrap();
        self.run(handled.record).unwrap();
        body(&forward.body)
    }
}

#[test]
fn prompt_is_sent_in_an_envelope() {
    let config = with_mode("none");
    let step = begin_request(&config, "req-7".into(), asked(" hello ", None), false);
    let forward = forwarded(step);
    // The first half of the digest of "req-7hello".
    let id = "70f2e2957bd813f7eb942afe03d9221c";
    assert_eq!(
        forward.body,
        format!(
            "{{\"id\":\"{id}\",\"jsonrpc\":\"2.0\",\"method\":\"SendMessage\",\"params\":\
             {{\"message\":{{\"messageId\":\"{id}\",\"parts\":[{{\"text\":\"hello\"}}],\
             \"role\":\"ROLE_USER\"}}}}}}"
        )
        .into_bytes()
    );
    assert_eq!(forward.context.continuation, RequestContinuation::default());
}

#[test]
fn plain_binding_sends_no_envelope() {
    let config = policy(Config {
        upstream_binding: "httpjson".into(),
        a2a_configuration: Some(A2aConfiguration {
            accepted_output_modes: None,
            blocking: true,
        }),
        ..config()
    });
    let step = begin_request(&config, "req-7".into(), asked("hello", None), true);
    let sent = body(&forwarded(step).body);
    assert!(sent.get("jsonrpc").is_none());
    assert_eq!(sent["message"]["parts"][0]["text"], "hello");
    assert_eq!(sent["configuration"]["returnImmediately"], false);
}

#[test]
fn request_without_a_prompt_is_refused() {
    let config = policy(Config {
        request_error_status: 422,
        ..config()
    });
    let none = Evaluated {
        prompt: None,
        ..asked("x", Some("conv"))
    };
    let blank = asked("  \n", Some("conv"));
    let list = Evaluated {
        prompt: Some(ScriptValue::Array),
        ..asked("x", Some("conv"))
    };
    for evaluated in [none, blank, list] {
        match begin_request(&config, "req".into(), evaluated, true) {
            RequestStep::Reject(rejection) => {
                assert_eq!(rejection.status, 422);
                assert_eq!(
                    rejection.body,
                    br#"{"error":{"message":"missing or invalid prompt","source":"rest-to-a2a"}}"#
                        .to_vec()
                );
            }
            other => panic!("{other:?}"),
        }
    }
}

#[test]
fn body_that_cannot_be_replaced_is_refused() {
    let rejection = build_failure(&with_mode("none"));
    assert_eq!(rejection.status, 400);
    assert_eq!(
        body(&rejection.body)["error"]["message"],
        "failed to build A2A request"
    );
}

#[test]
fn number_can_be_a_prompt() {
    let evaluated = Evaluated {
        prompt: Some(ScriptValue::Number(ScriptNumber::Integral(42))),
        ..asked("x", None)
    };
    let step = begin_request(&with_mode("none"), "req".into(), evaluated, false);
    let sent = body(&forwarded(step).body);
    assert_eq!(sent["params"]["message"]["parts"][0]["text"], "42");
}

#[test]
fn metadata_goes_along() {
    let evaluated = Evaluated {
        metadata: Json::parse(br#"{"tenant":"acme"}"#),
        ..asked("x", None)
    };
    let step = begin_request(&with_mode("none"), "req".into(), evaluated, false);
    let sent = body(&forwarded(step).body);
    assert_eq!(sent["params"]["message"]["metadata"]["tenant"], "acme");
}

#[test]
fn explicit_identifiers_go_along() {
    let evaluated = Evaluated {
        task_id: text("ht"),
        context_id: text(" hc "),
        ..asked("p", Some("conv"))
    };
    let step = begin_request(&with_mode("explicit"), "req".into(), evaluated, true);
    let forward = forwarded(step);
    let sent = body(&forward.body);
    assert_eq!(sent["params"]["message"]["taskId"], "ht");
    assert_eq!(sent["params"]["message"]["contextId"], "hc");
    assert!(forward.context.continuation.cache_key.is_none());
    assert!(forward.context.continuation.had_continuation_id);
}

#[test]
fn identifiers_are_not_looked_at_in_other_modes() {
    let evaluated = Evaluated {
        task_id: text("ht"),
        context_id: text("hc"),
        ..asked("p", None)
    };
    let step = begin_request(&with_mode("none"), "req".into(), evaluated, true);
    let sent = body(&forwarded(step).body);
    assert!(sent["params"]["message"].get("taskId").is_none());
}

#[test]
fn conversation_is_looked_up_under_its_key() {
    let step = begin_request(&with_mode("cache"), "req".into(), asked("p", Some(" conv ")), true);
    match step {
        RequestStep::Lookup(pending) => {
            assert_eq!(pending.key(), CacheKey::from_hashed("conv").as_str());
        }
        other => panic!("{other:?}"),
    }
    // Without a store, and without a name, the request stands alone.
    let step = begin_request(&with_mode("cache"), "req".into(), asked("p", Some("conv")), false);
    assert_eq!(forwarded(step).context.continuation, RequestContinuation::default());
    let step = begin_request(&with_mode("cache"), "req".into(), asked("p", None), true);
    assert_eq!(forwarded(step).context.continuation, RequestContinuation::default());
}

#[test]
fn second_turn_names_the_task_of_the_first() {
    for binding in ["jsonrpc", "httpjson"] {
        let config = policy(Config {
            upstream_binding: binding.into(),
            ..config()
        });
        let reply = match binding {
            "jsonrpc" => INPUT_REQUIRED.to_vec(),
            _ => br#"{"task":{"id":"task-42","contextId":"ctx-7",
                "status":{"state":"TASK_STATE_INPUT_REQUIRED"}}}"#
                .to_vec(),
        };
        let mut store = Store::default();
        let first = store.turn(&config, asked("first", Some("s")), &reply, 0);
        let second = store.turn(&config, asked("second", Some("s")), &reply, 3_599_999);
        let other = store.turn(&config, asked("third", Some("other")), &reply, 3_599_999);
        let message = |sent: &Value| match binding {
            "jsonrpc" => sent["params"]["message"].clone(),
            _ => sent["message"].clone(),
        };
        assert!(message(&first).get("taskId").is_none());
        assert_eq!(message(&second)["taskId"], "task-42");
        assert_eq!(message(&second)["contextId"], "ctx-7");
        assert!(message(&other).get("taskId").is_none());
    }
}

#[test]
fn turn_after_the_end_names_no_task() {
    for distributed in [false, true] {
        let config = policy(Config {
            cache_config: Some(CacheConfig {
                context_key_selector: Some(script()),
                distributed,
                conversation_ttl_seconds: 3600,
            }),
            ..config()
        });
        let mut store = Store::default();
        store.turn(&config, asked("first", Some("s")), INPUT_REQUIRED, 0);
        let second = store.turn(&config, asked("second", Some("s")), COMPLETED, 1);
        let third = store.turn(&config, asked("third", Some("s")), INPUT_REQUIRED, 2);
        assert_eq!(second["params"]["message"]["taskId"], "task-42");
        assert!(third["params"]["message"].get("taskId").is_none());
        assert_eq!(store.data.len(), 1);
    }
}

#[test]
fn expired_conversation_is_fresh() {
    let config = policy(config());
    let mut store = Store::default();
    store.turn(&config, asked("first", Some("s")), INPUT_REQUIRED, 0);
    let second = store.turn(&config, asked("second", Some("s")), INPUT_REQUIRED, 3_600_000);
    assert!(second["params"]["message"].get("taskId").is_none());
}

#[test]
fn other_modes_leave_the_store_alone() {
    for mode in ["explicit", "none"] {
        let config = with_mode(mode);
        let mut store = Store::default();
        store.turn(&config, asked("first", Some("s")), INPUT_REQUIRED, 0);
        assert!(store.data.is_empty());
    }
}

#[test]
fn seed_is_the_request_or_its_path() {
    assert_eq!(id_seed(Some("rid".into()), "/ask".into()), "rid");
    assert_eq!(id_seed(None, "/ask".into()), "/ask");
}

#[test]
fn mode_decides_which_selectors_are_needed() {
    let config = policy(config());
    let active = active_selectors(&config);
    assert!(active.context_key.is_some() && active.task_id.is_none());
    assert!(active.context_id.is_none() && active.metadata.is_none());
    let config = with_mode("explicit");
    let active = active_selectors(&config);
    assert!(active.context_key.is_none());
    assert!(active.task_id.is_some() && active.context_id.is_some());
    let config = with_mode("none");
    let active = active_selectors(&config);
    assert!(active.context_key.is_none());
    assert!(active.task_id.is_none() && active.context_id.is_none());
}

#[test]
fn stream_passes_untouched() {
    let config = with_fields("jsonrpc", &[("a", "b")]);
    let plan = plan_response(&config, Some("text/event-stream; charset=utf-8".into()));
    assert_eq!(plan, ResponsePlan::Stream);
    assert!(!plan.rewrites_headers());
}

#[test]
fn shape_decides_the_plan() {
    let json = Some("application/json".to_string());
    let fields = plan_response(&with_fields("jsonrpc", &[("a", "b")]), json.clone());
    assert_eq!(fields, ResponsePlan::Fields);
    assert!(fields.rewrites_headers());
    let mapping = policy(Config {
        response_type: "mapping".into(),
        ..config()
    });
    let plan = plan_response(&mapping, None);
    assert_eq!(plan, ResponsePlan::Mapping);
    assert!(plan.rewrites_headers());
    let plan = plan_response(&with_mode("none"), json);
    assert_eq!(plan, ResponsePlan::Raw);
    assert!(!plan.rewrites_headers());
}

#[test]
fn raw_reply_is_kept_and_still_recorded() {
    let config = policy(config());
    let context = RequestContext {
        continuation: RequestContinuation {
            cache_key: Some(CacheKey::from_hashed("s")),
            ..Default::default()
        },
    };
    let handled = read_reply(&config, &context, INPUT_REQUIRED, true, 5).unwrap();
    assert!(matches!(handled.shaping, Shaping::Keep));
    assert!(handled.error.is_none());
    assert!(!handled.unresumable);
    match handled.record {
        Step::Write(waiting) => assert_eq!(waiting.entry().expires_at_millis, 3_600_005),
        other => panic!("{other:?}"),
    }
}

#[test]
fn task_that_nobody_can_pick_up_is_noticed() {
    let config = with_mode("none");
    let context = RequestContext::default();
    let handled = read_reply(&config, &context, INPUT_REQUIRED, false, 0).unwrap();
    assert!(handled.unresumable);
    assert!(matches!(handled.record, Step::Finished(Ok(()))));
    let handled = read_reply(&config, &context, COMPLETED, false, 0).unwrap();
    assert!(!handled.unresumable);
    let handled = read_reply(&config, &context, b"<html>", false, 0).unwrap();
    assert!(!handled.unresumable);
}

#[test]
fn fields_are_assembled_from_the_result() {
    let config = with_fields(
        "jsonrpc",
        &[
            ("conversationId", "payload.task.contextId"),
            ("data.taskRef", "payload.task.id"),
            ("status", "task.status.state"),
            ("reply", "task.status.update.parts[0].text"),
        ],
    );
    let handled = read_reply(&config, &RequestContext::default(), INPUT_REQUIRED, false, 0).unwrap();
    match handled.shaping {
        Shaping::Replace(shaped) => {
            assert!(shaped.missing.is_empty() && shaped.collisions.is_empty());
            assert_eq!(
                body(&shaped.body),
                serde_json::from_str::<Value>(
                    r#"{"conversationId":"ctx-7","data":{"taskRef":"task-42"},
                        "status":"TASK_STATE_INPUT_REQUIRED",
                        "reply":"what is your order number?"}"#
                )
                .unwrap()
            );
        }
        other => panic!("{other:?}"),
    }
}

#[test]
fn missing_selection_becomes_null() {
    let config = with_fields(
        "jsonrpc",
        &[
            ("taskRef", "task.id"),
            ("reply", "task.status.update.parts[0].text"),
            ("taskRef", "task.contextId"),
            ("also", "task.nothing"),
        ],
    );
    let handled = read_reply(&config, &RequestContext::default(), COMPLETED, false, 0).unwrap();
    match handled.shaping {
        Shaping::Replace(shaped) => {
            assert_eq!(shaped.missing, vec![1, 3]);
            assert_eq!(shaped.collisions, vec!["taskRef".to_string()]);
            assert_eq!(
                shaped.body,
                br#"{"also":null,"reply":null,"taskRef":"task-99"}"#.to_vec()
            );
        }
        other => panic!("{other:?}"),
    }
}

#[test]
fn fields_of_a_plain_reply_are_selected_from_its_body() {
    let config = with_fields("httpjson", &[("taskRef", "payload.task.id")]);
    let reply = br#"{"task":{"id":"hj-task","status":{"state":"TASK_STATE_COMPLETED"}}}"#;
    let handled = read_reply(&config, &RequestContext::default(), reply, false, 0).unwrap();
    match handled.shaping {
        Shaping::Replace(shaped) => {
            assert_eq!(shaped.body, br#"{"taskRef":"hj-task"}"#.to_vec());
        }
        other => panic!("{other:?}"),
    }
}

#[test]
fn fields_of_a_reply_without_a_result() {
    let config = with_fields("jsonrpc", &[("code", "error.code"), ("all", "")]);
    let reply = br#"{"error":{"code":-32602}}"#;
    let handled = read_reply(&config, &RequestContext::default(), reply, false, 0).unwrap();
    assert_eq!(handled.error.unwrap().into_value()["code"], -32602);
    match handled.shaping {
        Shaping::Replace(shaped) => {
            assert_eq!(
                shaped.body,
                br#"{"all":{"error":{"code":-32602}},"code":-32602}"#.to_vec()
            );
        }
        other => panic!("{other:?}"),
    }
    let handled = read_reply(&config, &RequestContext::default(), b"<html>", false, 0).unwrap();
    match handled.shaping {
        Shaping::Replace(shaped) => {
            assert_eq!(shaped.body, br#"{"all":null,"code":null}"#.to_vec());
            assert_eq!(shaped.missing, vec![0]);
        }
        other => panic!("{other:?}"),
    }
}

#[test]
fn numbers_are_selected_verbatim() {
    let root = Json::parse(br#"{"n":-32602,"big":18446744073709551615}"#).unwrap();
    let fields = vec![
        ResponseField {
            name: "n".into(),
            selector: "n".into(),
        },
        ResponseField {
            name: "big".into(),
            selector: "big".into(),
        },
    ];
    assert_eq!(
        shape_fields(&fields, &root).body,
        br#"{"big":18446744073709551615,"n":-32602}"#.to_vec()
    );
}

#[test]
fn mapping_runs_on_the_result() {
    let config = policy(Config {
        response_type: "mapping".into(),
        ..config()
    });
    let reply = br#"{ "jsonrpc": "2.0", "result": { "task": { "id": "t" } } }"#;
    let handled = read_reply(&config, &RequestContext::default(), reply, false, 0).unwrap();
    match handled.shaping {
        Shaping::Evaluate(payload) => assert_eq!(payload, br#"{"task":{"id":"t"}}"#.to_vec()),
        other => panic!("{other:?}"),
    }
    // Without a result, on the reply as it came.
    for reply in [&b"{ \"error\": 1 }"[..], &b"<html>"[..]] {
        let body = Json::parse(reply);
        let handled = handle_reply(&config, &RequestContext::default(), body, reply, false, 0);
        match handled.shaping {
            Shaping::Evaluate(payload) => assert_eq!(payload, reply.to_vec()),
            other => panic!("{other:?}"),
        }
    }
}

#[test]
fn mapped_value_is_the_body() {
    let value = pdk::script::Value::String("hi".into());
    assert_eq!(mapped_body(Some(value)), Some(b"\"hi\"".to_vec()));
    assert_eq!(mapped_body(None), None);
}

#[test]
fn reply_with_both_halves_is_neither_recorded_nor_reported() {
    let config = with_fields("jsonrpc", &[("id", "result.task.id"), ("code", "error.code")]);
    let reply = br#"{"result":{"task":{"id":"t","status":{"state":"working"}}},"error":{"code":1}}"#;
    let context = RequestContext {
        continuation: RequestContinuation {
            cache_key: Some(CacheKey::from_hashed("s")),
            ..Default::default()
        },
    };
    let handled = read_reply(&config, &context, reply, true, 0).unwrap();
    assert!(handled.error.is_none() && !handled.unresumable);
    assert!(matches!(handled.record, Step::Finished(Ok(()))));
    match handled.shaping {
        Shaping::Replace(shaped) => {
            assert_eq!(shaped.body, br#"{"code":1,"id":"t"}"#.to_vec());
        }
        other => panic!("{other:?}"),
    }
}

#[test]
fn expiry_beyond_the_clock_matters_only_where_it_is_written() {
    let config = policy(config());
    let keyed = RequestContext {
        continuation: RequestContinuation {
            cache_key: Some(CacheKey::from_hashed("s")),
            ..Default::default()
        },
    };
    let last: u64 = u64::MAX - 3_600_000;
    assert!(read_reply(&config, &keyed, INPUT_REQUIRED, true, last).is_some());
    assert!(read_reply(&config, &keyed, INPUT_REQUIRED, true, last + 1).is_none());
    // Nothing is written: a deletion, no key, no store, no result.
    assert!(read_reply(&config, &keyed, COMPLETED, true, u64::MAX).is_some());
    let fresh = RequestContext::default();
    assert!(read_reply(&config, &fresh, INPUT_REQUIRED, true, u64::MAX).is_some());
    assert!(read_reply(&config, &keyed, INPUT_REQUIRED, false, u64::MAX).is_some());
    assert!(read_reply(&config, &keyed, b"<html>", true, u64::MAX).is_some());
}

#[test]
fn nothing_is_resumed_without_a_clock() {
    assert_eq!(time_of_lookup(Some(5)), 5);
    assert_eq!(time_of_record(Some(5)), 5);
    assert_eq!(time_of_record(None), 0);
    let config = policy(config());
    let mut store = Store::default();
    store.turn(&config, asked("first", Some("s")), INPUT_REQUIRED, 0);
    match begin_request(&config, "req".into(), asked("second", Some("s")), true) {
        RequestStep::Lookup(pending) => {
            let reading = Ok(store.read(pending.key()));
            let forward = pending.finish(&config, &reading, time_of_lookup(None));
            assert!(forward.context.continuation.continuation.is_empty());
        }
        other => panic!("{other:?}"),
    }
}

#[test]
fn integers_in_metadata_read_back() {
    let evaluated = Evaluated {
        metadata: Json::parse(br#"{"n":42,"list":[-1]}"#),
        ..asked("x", None)
    };
    let step = begin_request(&with_mode("none"), "req".into(), evaluated, false);
    let sent = Json::parse(&forwarded(step).body).unwrap();
    assert!(sent.reads_back());
    let sent = sent.into_value();
    assert_eq!(sent["params"]["message"]["metadata"]["n"], 42);
    assert_eq!(sent["params"]["message"]["metadata"]["list"][0], -1);
}

#[test]
fn shaped_body_reads_back() {
    let reply = br#"{"result":{"task":{"id":"t","n":[1,-2],"status":{"state":"completed"}}}}"#;
    let fields = with_fields("jsonrpc", &[("out.n", "task.n"), ("id", "task.id")]);
    let handled = read_reply(&fields, &RequestContext::default(), reply, false, 0).unwrap();
    match handled.shaping {
        Shaping::Replace(shaped) => {
            let back = Json::parse(&shaped.body).unwrap();
            assert!(back.reads_back());
            assert_eq!(back.into_value(), body(br#"{"id":"t","out":{"n":[1,-2]}}"#));
        }
        other => panic!("{other:?}"),
    }
    let mapping = policy(Config {
        response_type: "mapping".into(),
        ..config()
    });
    let handled = read_reply(&mapping, &RequestContext::default(), reply, false, 0).unwrap();
    match handled.shaping {
        Shaping::Evaluate(payload) => {
            let back = Json::parse(&payload).unwrap().into_value();
            assert_eq!(back, body(reply)["result"]);
        }
        other => panic!("{other:?}"),
    }
}
