use pdk::script::{Expression, Format, Input, Script, ScriptingEngine};
use rest_to_a2a::binding::{UnknownBinding, UpstreamBinding};
use rest_to_a2a::config::{
    default_blocking, default_continuation_mode, default_conversation_ttl_seconds,
    default_distributed, default_enable_task_continuation, default_request_error_status,
    default_response_type, default_upstream_binding, merge_cache, merge_explicit, merge_response,
    A2aConfiguration, CacheConfig, CacheSettings, Config, ExplicitConfig, ResponseConfig,
    ResponseField, ResponseSettings,
};
use rest_to_a2a::config_map::{
    ConfigError, ContinuationMode, PolicyConfig, ResponseType, StoragePlan,
};

fn script() -> Script {
    let expression: Expression = serde_json::from_str("\"\"").unwrap();
    ScriptingEngine::script(&expression)
        .input(Input::Attributes)
        .input(Input::Payload(Format::Json))
        .compile()
        .unwrap()
}

fn config() -> Config {
    Config {
        upstream_binding: default_upstream_binding(),
        prompt_selector: script(),
        enable_task_continuation: default_enable_task_continuation(),
        continuation_mode: default_continuation_mode(),
        cache_config: None,
        explicit_config: None,
        response_type: default_response_type(),
        custom_response: None,
        response_config: None,
        a2a_configuration: None,
        metadata_selector: None,
        request_error_status: default_request_error_status(),
    }
}

fn cache(distributed: bool, ttl: i64) -> CacheConfig {
    CacheConfig {
        context_key_selector: Some(script()),
        distributed,
        conversation_ttl_seconds: ttl,
    }
}

fn fields() -> Vec<ResponseField> {
    vec![ResponseField {
        name: "taskRef".into(),
        selector: "task.id".into(),
    }]
}

#[test]
fn continuation_mode_parsing() {
    assert_eq!("cache".parse(), Ok(ContinuationMode::Cache));
    assert_eq!("EXPLICIT".parse(), Ok(ContinuationMode::Explicit));
    assert_eq!("none".parse(), Ok(ContinuationMode::SingleShot));
    assert!("bogus".parse::<ContinuationMode>().is_err());
}

#[test]
fn response_type_parsing() {
    assert_eq!("raw".parse(), Ok(ResponseType::Raw));
    assert_eq!("MAPPING".parse(), Ok(ResponseType::Mapping));
    assert_eq!("fields".parse(), Ok(ResponseType::Fields));
    assert!("bogus".parse::<ResponseType>().is_err());
}

#[test]
fn defaults_are_as_documented() {
    assert_eq!(default_upstream_binding(), "jsonrpc");
    assert_eq!(default_continuation_mode(), "cache");
    assert_eq!(default_response_type(), "raw");
    assert!(default_enable_task_continuation());
    assert!(!default_distributed());
    assert!(default_blocking());
    assert_eq!(default_conversation_ttl_seconds(), 3600);
    assert_eq!(default_request_error_status(), 400);

    let policy = PolicyConfig::from_generated(config()).unwrap();
    assert_eq!(policy.binding, UpstreamBinding::JsonRpc);
    assert_eq!(policy.continuation_mode, ContinuationMode::Cache);
    assert_eq!(policy.response_type, ResponseType::Raw);
    assert!(policy.context_key_selector.is_none());
    assert!(policy.task_id_selector.is_none());
    assert!(policy.context_id_selector.is_none());
    assert!(policy.response_mapping.is_none());
    assert!(policy.response_fields.is_empty());
    assert!(policy.metadata_selector.is_none());
    assert!(policy.send_configuration.is_none());
    assert!(!policy.distributed);
    assert_eq!(policy.conversation_ttl_seconds, 3600);
    assert_eq!(policy.request_error_status, 400);
    assert!(policy.uses_cache());
    assert!(policy.uses_raw_response());
    assert!(!policy.uses_response_fields());
    assert_eq!(policy.storage_plan(), StoragePlan::Local);
}

#[test]
fn groups_without_settings_are_empty() {
    let cache = CacheConfig::default();
    assert!(cache.context_key_selector.is_none() && !cache.distributed);
    assert_eq!(cache.conversation_ttl_seconds, 3600);
    let explicit = ExplicitConfig::default();
    assert!(explicit.task_id_selector.is_none() && explicit.context_id_selector.is_none());
    let response = ResponseConfig::default();
    assert!(response.response_mapping.is_none() && response.response_fields.is_empty());
}

#[test]
fn numbers_are_brought_into_range() {
    for (ttl, kept) in [
        (i64::MIN, 60),
        (59, 60),
        (60, 60),
        (86_400, 86_400),
        (86_401, 86_400),
        (i64::MAX, 86_400),
    ] {
        let policy = PolicyConfig::from_generated(Config {
            cache_config: Some(cache(false, ttl)),
            ..config()
        })
        .unwrap();
        assert_eq!(policy.conversation_ttl_seconds, kept);
    }
    for (status, kept) in [(0, 400), (400, 400), (422, 422), (599, 599), (600, 599)] {
        let policy = PolicyConfig::from_generated(Config {
            request_error_status: status,
            ..config()
        })
        .unwrap();
        assert_eq!(policy.request_error_status, kept);
    }
}

#[test]
fn settings_are_taken_over() {
    let policy = PolicyConfig::from_generated(Config {
        upstream_binding: " HTTP+JSON ".into(),
        continuation_mode: "explicit".into(),
        cache_config: Some(cache(true, 120)),
        explicit_config: Some(ExplicitConfig {
            task_id_selector: Some(script()),
            context_id_selector: None,
        }),
        response_type: "fields".into(),
        response_config: Some(ResponseConfig {
            response_mapping: Some(script()),
            response_fields: fields(),
        }),
        a2a_configuration: Some(A2aConfiguration {
            accepted_output_modes: Some(vec!["text/plain".into()]),
            blocking: false,
        }),
        metadata_selector: Some(script()),
        ..config()
    })
    .unwrap();
    assert_eq!(policy.binding, UpstreamBinding::HttpJson);
    assert_eq!(policy.continuation_mode, ContinuationMode::Explicit);
    assert!(policy.context_key_selector.is_some());
    assert!(policy.task_id_selector.is_some());
    assert!(policy.context_id_selector.is_none());
    assert!(policy.uses_response_fields());
    assert!(policy.response_mapping.is_some());
    assert_eq!(policy.response_fields, fields());
    assert!(policy.metadata_selector.is_some());
    let send = policy.send_configuration.as_ref().unwrap();
    assert_eq!(send.accepted_output_modes, Some(vec!["text/plain".to_string()]));
    assert!(!send.blocking);
    assert!(policy.distributed);
    // Nothing is kept in this mode, so no store is needed.
    assert_eq!(policy.storage_plan(), StoragePlan::Nothing);
}

#[test]
fn shared_store_lives_as_long_as_its_entries() {
    let policy = PolicyConfig::from_generated(Config {
        cache_config: Some(cache(true, 86_400)),
        ..config()
    })
    .unwrap();
    assert_eq!(
        policy.storage_plan(),
        StoragePlan::Remote {
            ttl_millis: 86_400_000
        }
    );
}

#[test]
fn unknown_names_are_refused_in_order() {
    let all_wrong = Config {
        upstream_binding: "gRPC".into(),
        continuation_mode: "Bogus".into(),
        response_type: "Odd".into(),
        ..config()
    };
    let err = PolicyConfig::from_generated(all_wrong).unwrap_err();
    assert_eq!(err, ConfigError::Binding(UnknownBinding("grpc".into())));
    assert_eq!(
        err.message(),
        "unknown upstream binding 'grpc' (expected 'jsonrpc' or 'httpjson')"
    );

    let two_wrong = Config {
        continuation_mode: "Bogus".into(),
        response_type: "Odd".into(),
        ..config()
    };
    let err = PolicyConfig::from_generated(two_wrong).unwrap_err();
    assert_eq!(err, ConfigError::ContinuationMode("bogus".into()));
    assert_eq!(
        err.message(),
        "unknown continuationMode 'bogus' (expected 'cache', 'explicit', or 'none')"
    );

    let one_wrong = Config {
        response_type: "Odd".into(),
        ..config()
    };
    let err = PolicyConfig::from_generated(one_wrong).unwrap_err();
    assert_eq!(err, ConfigError::ResponseType("odd".into()));
    assert_eq!(
        err.message(),
        "unknown responseType 'odd' (expected 'raw', 'mapping', or 'fields')"
    );
}

#[test]
fn master_switch_overrides_the_mode() {
    let policy = PolicyConfig::from_generated(Config {
        enable_task_continuation: false,
        ..config()
    })
    .unwrap();
    assert_eq!(policy.continuation_mode, ContinuationMode::SingleShot);
    assert!(!policy.uses_cache());
    assert_eq!(policy.storage_plan(), StoragePlan::Nothing);
    // A mode that is not one is still reported.
    let err = PolicyConfig::from_generated(Config {
        enable_task_continuation: false,
        continuation_mode: "bogus".into(),
        ..config()
    });
    assert!(matches!(err, Err(ConfigError::ContinuationMode(_))));
}

#[test]
fn response_switch_overrides_the_shape() {
    let shaped = |custom: Option<bool>, named: &str, listed: bool| {
        PolicyConfig::from_generated(Config {
            custom_response: custom,
            response_type: named.into(),
            response_config: Some(ResponseConfig {
                response_mapping: Some(script()),
                response_fields: if listed { fields() } else { Vec::new() },
            }),
            ..config()
        })
        .unwrap()
        .response_type
    };
    assert_eq!(shaped(None, "mapping", true), ResponseType::Mapping);
    assert_eq!(shaped(Some(false), "mapping", true), ResponseType::Raw);
    assert_eq!(shaped(Some(true), "raw", true), ResponseType::Fields);
    assert_eq!(shaped(Some(true), "raw", false), ResponseType::Mapping);
}

fn settings(distributed: Option<bool>, ttl: Option<i64>) -> CacheSettings {
    CacheSettings {
        context_key_selector: None,
        distributed,
        conversation_ttl_seconds: ttl,
    }
}

#[test]
fn group_goes_before_what_stands_beside_it() {
    let merged = merge_cache(settings(None, None), settings(None, None));
    assert!(!merged.distributed && merged.context_key_selector.is_none());
    assert_eq!(merged.conversation_ttl_seconds, 3600);
    let beside = CacheSettings {
        context_key_selector: Some(script()),
        ..settings(Some(true), Some(70))
    };
    let merged = merge_cache(settings(None, Some(80)), beside);
    assert!(merged.distributed && merged.context_key_selector.is_some());
    assert_eq!(merged.conversation_ttl_seconds, 80);
    assert!(!merge_cache(settings(Some(false), None), settings(Some(true), None)).distributed);

    let merged = merge_explicit(
        ExplicitConfig {
            task_id_selector: None,
            context_id_selector: Some(script()),
        },
        ExplicitConfig {
            task_id_selector: Some(script()),
            context_id_selector: None,
        },
    );
    assert!(merged.task_id_selector.is_some() && merged.context_id_selector.is_some());
}

#[test]
fn own_group_goes_before_the_common_one() {
    let listed = |name: &str| {
        Some(vec![ResponseField {
            name: name.into(),
            selector: "x".into(),
        }])
    };
    let shaping = |fields: Option<Vec<ResponseField>>| ResponseSettings {
        response_mapping: None,
        response_fields: fields,
    };
    let names = |config: ResponseConfig| -> Vec<String> {
        config.response_fields.into_iter().map(|field| field.name).collect()
    };
    let all = merge_response(None, listed("own"), shaping(listed("common")), shaping(listed("beside")));
    assert_eq!(names(all), vec!["own"]);
    let two = merge_response(None, None, shaping(listed("common")), shaping(listed("beside")));
    assert_eq!(names(two), vec!["common"]);
    let one = merge_response(Some(script()), None, shaping(None), shaping(listed("beside")));
    assert!(one.response_mapping.is_some());
    assert_eq!(names(one), vec!["beside"]);
    let none = merge_response(None, None, shaping(None), shaping(None));
    assert!(none.response_mapping.is_none() && none.response_fields.is_empty());
}
