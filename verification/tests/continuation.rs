use rest_to_a2a::a2a::{Continuation, StateClass};
use rest_to_a2a::cache::{
    CacheError, CacheKey, ConversationEntry, ConversationStore, EntryState, Step,
};
use rest_to_a2a::config_map::ContinuationMode;
use rest_to_a2a::continuation::{
    conversation_key, is_unresumable_continuable, persist_outcome, resolve_cache,
    resolve_explicit, RequestContinuation,
};

#[test]
fn explicit_carries_client_ids() {
    let r = resolve_explicit(Some("t".into()), Some("c".into()));
    assert_eq!(r.continuation.task_id.as_deref(), Some("t"));
    assert_eq!(r.continuation.context_id.as_deref(), Some("c"));
    assert!(r.cache_key.is_none());
    assert!(r.had_continuation_id);
    assert!(r.is_resumable());
}

#[test]
fn explicit_with_no_ids_is_fresh() {
    let r = resolve_explicit(None, None);
    assert!(r.continuation.is_empty());
    assert!(!r.had_continuation_id);
    assert!(!r.is_resumable());
}

#[test]
fn none_mode_default_is_unresumable_when_continuable() {
    // A request that stands alone, and an explicit one without identifiers, are the default.
    let r = RequestContinuation::default();
    assert!(is_unresumable_continuable(&r, StateClass::Continuable));
    assert!(!is_unresumable_continuable(&r, StateClass::Terminal));
}

#[test]
fn cache_key_present_is_resumable() {
    let r = RequestContinuation {
        cache_key: Some(CacheKey::from_hashed("conv")),
        ..Default::default()
    };
    assert!(r.is_resumable());
    assert!(!is_unresumable_continuable(&r, StateClass::Continuable));
}

#[test]
fn continuation_mode_is_routed_by_caller() {
    let mode = ContinuationMode::Explicit;
    assert_eq!(mode, ContinuationMode::Explicit);
}

fn live() -> ConversationEntry {
    ConversationEntry {
        context_id: Some("c".into()),
        task_id: Some("t".into()),
        state: EntryState::Continuable,
        expires_at_millis: 1000,
    }
}

#[test]
fn cached_conversation_is_resumed_with_its_key() {
    let store = ConversationStore::new(false, 3600);
    let reading = Ok(Some((live(), "1".to_string())));
    let r = resolve_cache(&store, Some("conv".into()), &reading, 999);
    assert_eq!(
        r,
        RequestContinuation {
            continuation: Continuation {
                task_id: Some("t".into()),
                context_id: Some("c".into()),
            },
            cache_key: Some(CacheKey::from_hashed("conv")),
            had_continuation_id: true,
        }
    );
    assert_eq!(r.clone(), r);
    assert_eq!(conversation_key(&Some("conv".into())), r.cache_key);
}

#[test]
fn nothing_to_resume_still_has_its_key() {
    let store = ConversationStore::new(false, 3600);
    let fresh = RequestContinuation {
        cache_key: Some(CacheKey::from_hashed("conv")),
        ..Default::default()
    };
    let expired = Ok(Some((live(), "1".to_string())));
    assert_eq!(resolve_cache(&store, Some("conv".into()), &expired, 1000), fresh);
    assert_eq!(resolve_cache(&store, Some("conv".into()), &Ok(None), 0), fresh);
    let failed = Err(CacheError::Storage("x".into()));
    assert_eq!(resolve_cache(&store, Some("conv".into()), &failed, 0), fresh);
}

#[test]
fn unnamed_conversation_stands_alone() {
    let store = ConversationStore::new(false, 3600);
    let reading = Ok(Some((live(), "1".to_string())));
    assert_eq!(
        resolve_cache(&store, None, &reading, 0),
        RequestContinuation::default()
    );
    assert_eq!(conversation_key(&None), None);
}

#[test]
fn outcome_without_a_key_makes_no_request() {
    let store = ConversationStore::new(true, 3600);
    let request = resolve_explicit(Some("t".into()), None);
    for class in [StateClass::Continuable, StateClass::Terminal, StateClass::Unknown] {
        let step = persist_outcome(&store, &request, class, &Continuation::default(), u64::MAX);
        assert!(matches!(step, Step::Finished(Ok(()))));
    }
}

#[test]
fn outcome_is_recorded_under_the_key() {
    let store = ConversationStore::new(false, 60);
    let request = RequestContinuation {
        cache_key: Some(CacheKey::from_hashed("conv")),
        ..Default::default()
    };
    let task = Continuation {
        task_id: Some("t".into()),
        context_id: None,
    };
    let step = persist_outcome(&store, &request, StateClass::Continuable, &task, 7);
    match step {
        Step::Write(waiting) => {
            assert_eq!(waiting.key(), CacheKey::from_hashed("conv").as_str());
            assert_eq!(waiting.entry().task_id.as_deref(), Some("t"));
            assert_eq!(waiting.entry().expires_at_millis, 60_007);
        }
        other => panic!("{other:?}"),
    }
    let step = persist_outcome(&store, &request, StateClass::Terminal, &task, 7);
    assert!(matches!(step, Step::Delete(_)));
    let shared = ConversationStore::new(true, 60);
    let step = persist_outcome(&shared, &request, StateClass::Terminal, &task, 7);
    assert!(matches!(step, Step::Read(_)));
}
