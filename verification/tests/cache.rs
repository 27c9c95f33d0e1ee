use std::collections::HashMap;

use pdk::data_storage::DataStorageError;
use rest_to_a2a::a2a::{Continuation, StateClass};
use rest_to_a2a::cache::{
    CacheError, CacheKey, ConversationEntry, ConversationStore, EntryState, Reading, Step,
    StoreMode, CAS_MAX_RETRIES, KEY_PREFIX,
};

/// A store in memory, with a version for every entry.
#[derive(Default)]
struct MockStorage {
    data: HashMap<String, (ConversationEntry, u64)>,
    fail_cas: usize,
    fail_absent: usize,
    broken: bool,
    requests: Vec<&'static str>,
}

impl MockStorage {
    fn get(&mut self, key: &str) -> Reading {
        self.requests.push("read");
        if self.broken {
            return Err(CacheError::Storage("gone".to_string()));
        }
        Ok(self
            .data
            .get(key)
            .map(|(entry, version)| (entry.clone(), version.to_string())))
    }

    fn store(
        &mut self,
        key: &str,
        mode: &StoreMode,
        entry: &ConversationEntry,
    ) -> Result<(), CacheError> {
        self.requests.push("write");
        if self.broken {
            return Err(CacheError::Storage("gone".to_string()));
        }
        match mode {
            StoreMode::Absent => {
                if self.fail_absent > 0 {
                    self.fail_absent -= 1;
                    return Err(CacheError::CasConflict);
                }
                if self.data.contains_key(key) {
                    return Err(CacheError::CasConflict);
                }
                self.data.insert(key.to_string(), (entry.clone(), 1));
                Ok(())
            }
            StoreMode::Cas(expected) => {
                if self.fail_cas > 0 {
                    self.fail_cas -= 1;
                    return Err(CacheError::CasConflict);
                }
                match self.data.get(key) {
                    Some((_, version)) if version.to_string() == *expected => {
                        let next: u64 = version + 1;
                        self.data.insert(key.to_string(), (entry.clone(), next));
                        Ok(())
                    }
                    _ => Err(CacheError::CasConflict),
                }
            }
        }
    }

    fn delete(&mut self, key: &str) -> Result<(), CacheError> {
        self.requests.push("delete");
        self.data.remove(key);
        Ok(())
    }

    fn run(&mut self, mut step: Step) -> Result<(), CacheError> {
        loop {
            step = match step {
                Step::Read(waiting) => {
                    let reading = self.get(waiting.key());
                    waiting.after(reading)
                }
                Step::Write(waiting) => {
                    let outcome = self.store(waiting.key(), waiting.mode(), waiting.entry());
                    waiting.after(outcome)
                }
                Step::Delete(waiting) => {
                    let outcome = self.delete(waiting.key());
                    waiting.after(outcome)
                }
                Step::Finished(outcome) => return outcome,
            };
        }
    }

    fn continuation(
        &mut self,
        store: &ConversationStore,
        key: &CacheKey,
        now_millis: u64,
    ) -> Option<Continuation> {
        let reading = self.get(key.as_str());
        store.get_continuation(&reading, now_millis)
    }
}

fn cont(t: &str, c: &str) -> Continuation {
    Continuation {
        task_id: Some(t.into()),
        context_id: Some(c.into()),
    }
}

#[test]
fn key_is_prefixed_hash_and_deterministic() {
    let a = CacheKey::from_hashed("conv-1");
    let b = CacheKey::from_hashed("conv-1");
    let c = CacheKey::from_hashed("conv-2");
    assert_eq!(a, b);
    assert_ne!(a, c);
    assert!(a.as_str().starts_with(KEY_PREFIX));
    // 64 hexadecimal digits after the prefix.
    assert_eq!(a.as_str().len(), KEY_PREFIX.len() + 64);
    // The value itself does not appear in the key.
    assert!(!a.as_str().contains("conv-1"));
}

#[test]
fn entry_expiry_and_continuable() {
    let entry = ConversationEntry {
        context_id: Some("c".into()),
        task_id: Some("t".into()),
        state: EntryState::Continuable,
        expires_at_millis: 1000,
    };
    assert!(entry.is_continuable());
    assert!(!entry.is_expired(999));
    assert!(entry.is_expired(1000));
    assert_eq!(entry.continuation().task_id.as_deref(), Some("t"));
}

#[test]
fn cas_mismatch_maps_to_conflict() {
    assert_eq!(
        CacheError::from(DataStorageError::CasMismatch),
        CacheError::CasConflict
    );
}

#[test]
fn upsert_then_get_roundtrip() {
    let mut storage = MockStorage::default();
    let store = ConversationStore::new(false, 3600);
    let key = CacheKey::from_hashed("conv");
    storage.run(store.upsert(&key, &cont("t1", "c1"), 0)).unwrap();
    let got = storage.continuation(&store, &key, 100).unwrap();
    assert_eq!(got.task_id.as_deref(), Some("t1"));
    assert_eq!(got.context_id.as_deref(), Some("c1"));
}

#[test]
fn expired_entry_not_returned_and_not_deleted() {
    let mut storage = MockStorage::default();
    let store = ConversationStore::new(true, 1); // one second
    let key = CacheKey::from_hashed("conv");
    storage.run(store.upsert(&key, &cont("t1", "c1"), 0)).unwrap();
    // Past the expiry at 1000.
    assert!(storage.continuation(&store, &key, 5000).is_none());
    // The entry stays in the store.
    assert!(!storage.data.is_empty());
}

#[test]
fn terminal_evicts_local_hard_delete() {
    let mut storage = MockStorage::default();
    let store = ConversationStore::new(false, 3600);
    let key = CacheKey::from_hashed("conv");
    storage.run(store.upsert(&key, &cont("t1", "c1"), 0)).unwrap();
    storage
        .run(store.record_outcome(&key, StateClass::Terminal, &cont("t1", "c1"), 0))
        .unwrap();
    assert!(storage.data.is_empty());
    assert!(storage.continuation(&store, &key, 0).is_none());
}

#[test]
fn terminal_evicts_remote_tombstone_no_delete() {
    let mut storage = MockStorage::default();
    let store = ConversationStore::new(true, 3600);
    let key = CacheKey::from_hashed("conv");
    storage.run(store.upsert(&key, &cont("t1", "c1"), 0)).unwrap();
    storage
        .run(store.record_outcome(&key, StateClass::Terminal, &cont("t1", "c1"), 0))
        .unwrap();
    // The tombstone is there, and reads pass over it.
    assert!(!storage.data.is_empty());
    assert!(storage.continuation(&store, &key, 0).is_none());
}

#[test]
fn upsert_does_not_resurrect_terminal() {
    let mut storage = MockStorage::default();
    let store = ConversationStore::new(true, 3600);
    let key = CacheKey::from_hashed("conv");
    storage
        .run(store.record_outcome(&key, StateClass::Terminal, &Continuation::default(), 0))
        .unwrap();
    // There was no entry, so there is no tombstone: a live entry is created.
    storage.run(store.upsert(&key, &cont("t1", "c1"), 0)).unwrap();
    assert!(storage.continuation(&store, &key, 0).is_some());
}

#[test]
fn upsert_retries_on_cas_conflict() {
    let mut storage = MockStorage::default();
    let store = ConversationStore::new(true, 3600);
    let key = CacheKey::from_hashed("conv");
    storage.run(store.upsert(&key, &cont("t1", "c1"), 0)).unwrap(); // create
    storage.fail_cas = 1; // the first replacement fails
    storage.run(store.upsert(&key, &cont("t2", "c1"), 0)).unwrap(); // the next succeeds
    let got = storage.continuation(&store, &key, 0).unwrap();
    assert_eq!(got.task_id.as_deref(), Some("t2"));
}

#[test]
fn unknown_state_is_noop() {
    let mut storage = MockStorage::default();
    let store = ConversationStore::new(false, 3600);
    let key = CacheKey::from_hashed("conv");
    storage
        .run(store.record_outcome(&key, StateClass::Unknown, &cont("t", "c"), 0))
        .unwrap();
    assert!(storage.data.is_empty());
    assert!(storage.requests.is_empty());
}

#[test]
fn key_is_the_digest_in_hexadecimal() {
    assert_eq!(
        CacheKey::from_hashed("conv-1").as_str(),
        "rest-to-a2a:36524fd8f6747fc2712506d01fee0e18b48cd6261295e2f7e79106460a79899f"
    );
    assert_eq!(CacheKey::of_digest(&[0xab, 0x01]).as_str(), "rest-to-a2a:ab01");
}

#[test]
fn other_failures_keep_their_description() {
    let timeout = DataStorageError::Timeout;
    let text = format!("{timeout:?}");
    assert_eq!(CacheError::from(timeout), CacheError::Storage(text));
}

#[test]
fn errors_describe_themselves() {
    assert_eq!(CacheError::CasConflict.message(), "compare-and-swap conflict");
    assert_eq!(
        CacheError::Storage("Timeout".to_string()).message(),
        "storage error: Timeout"
    );
}

#[test]
fn tombstone_is_not_overwritten() {
    let mut storage = MockStorage::default();
    let store = ConversationStore::new(true, 3600);
    let key = CacheKey::from_hashed("conv");
    storage.run(store.upsert(&key, &cont("t1", "c1"), 0)).unwrap();
    storage.run(store.evict(&key, 5)).unwrap();
    let tombstone = storage.data.get(key.as_str()).unwrap().clone();
    assert_eq!(
        tombstone.0,
        ConversationEntry {
            context_id: None,
            task_id: None,
            state: EntryState::Terminal,
            expires_at_millis: 3_600_005,
        }
    );
    storage.run(store.upsert(&key, &cont("t2", "c2"), 10)).unwrap();
    assert_eq!(*storage.data.get(key.as_str()).unwrap(), tombstone);
    assert!(!storage.requests.contains(&"delete"));
}

#[test]
fn entry_lives_for_its_time() {
    let mut storage = MockStorage::default();
    let store = ConversationStore::new(false, 60);
    let key = CacheKey::from_hashed("conv");
    storage.run(store.upsert(&key, &cont("t", "c"), 1000)).unwrap();
    assert_eq!(storage.continuation(&store, &key, 60_999), Some(cont("t", "c")));
    assert_eq!(storage.continuation(&store, &key, 61_000), None);
}

#[test]
fn upsert_gives_up_after_its_attempts() {
    let mut storage = MockStorage::default();
    let store = ConversationStore::new(true, 3600);
    let key = CacheKey::from_hashed("conv");
    storage.run(store.upsert(&key, &cont("t1", "c1"), 0)).unwrap();
    storage.requests.clear();
    storage.fail_cas = 3;
    assert_eq!(
        storage.run(store.upsert(&key, &cont("t2", "c1"), 0)),
        Err(CacheError::CasConflict)
    );
    assert_eq!(
        storage.requests,
        vec!["write", "read", "write", "read", "write", "read", "write"]
    );
    assert_eq!(CAS_MAX_RETRIES, 3);
    // One race less, and it succeeds.
    storage.fail_cas = 2;
    storage.run(store.upsert(&key, &cont("t2", "c1"), 0)).unwrap();
}

#[test]
fn upsert_creates_what_vanished_meanwhile() {
    let mut storage = MockStorage::default();
    let store = ConversationStore::new(true, 3600);
    let key = CacheKey::from_hashed("conv");
    storage.fail_absent = 1; // there was an entry, and the read finds none
    storage.run(store.upsert(&key, &cont("t", "c"), 0)).unwrap();
    assert_eq!(storage.requests, vec!["write", "read", "write"]);
    assert_eq!(storage.continuation(&store, &key, 0), Some(cont("t", "c")));
}

#[test]
fn evict_gives_up_after_its_attempts() {
    let mut storage = MockStorage::default();
    let store = ConversationStore::new(true, 3600);
    let key = CacheKey::from_hashed("conv");
    storage.run(store.upsert(&key, &cont("t1", "c1"), 0)).unwrap();
    storage.requests.clear();
    storage.fail_cas = 3;
    assert_eq!(
        storage.run(store.evict(&key, 0)),
        Err(CacheError::CasConflict)
    );
    assert_eq!(
        storage.requests,
        vec!["read", "write", "read", "write", "read", "write"]
    );
}

#[test]
fn other_failures_end_a_change_at_once() {
    let mut storage = MockStorage {
        broken: true,
        ..MockStorage::default()
    };
    let key = CacheKey::from_hashed("conv");
    let shared = ConversationStore::new(true, 3600);
    let gone = Err(CacheError::Storage("gone".to_string()));
    assert_eq!(storage.run(shared.upsert(&key, &cont("t", "c"), 0)), gone);
    assert_eq!(storage.run(shared.evict(&key, 0)), gone);
    assert_eq!(storage.requests, vec!["write", "read"]);
    // A read that fails gives nothing to resume.
    assert_eq!(storage.continuation(&shared, &key, 0), None);
}

#[test]
fn other_conversations_are_left_alone() {
    let mut storage = MockStorage::default();
    let store = ConversationStore::new(false, 3600);
    let a = CacheKey::from_hashed("a");
    let b = CacheKey::from_hashed("b");
    storage.run(store.upsert(&a, &cont("ta", "ca"), 0)).unwrap();
    storage.run(store.upsert(&b, &cont("tb", "cb"), 0)).unwrap();
    storage.run(store.evict(&a, 0)).unwrap();
    assert_eq!(storage.continuation(&store, &a, 0), None);
    assert_eq!(storage.continuation(&store, &b, 0), Some(cont("tb", "cb")));
}

#[test]
fn local_store_holds_no_tombstone() {
    let mut storage = MockStorage::default();
    let store = ConversationStore::new(false, 3600);
    for (name, class) in [
        ("a", StateClass::Continuable),
        ("b", StateClass::Terminal),
        ("a", StateClass::Terminal),
        ("c", StateClass::Continuable),
        ("a", StateClass::Continuable),
        ("c", StateClass::Unknown),
    ] {
        let key = CacheKey::from_hashed(name);
        storage
            .run(store.record_outcome(&key, class, &cont("t", name), 0))
            .unwrap();
        assert!(storage.data.values().all(|(entry, _)| entry.is_continuable()));
    }
    assert_eq!(storage.data.len(), 2);
    let key = CacheKey::from_hashed("a");
    assert_eq!(storage.continuation(&store, &key, 0), Some(cont("t", "a")));
}
