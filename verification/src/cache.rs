//! The conversation cache: which identifiers carry a conversation to its next turn.
//!
//! An entry is kept under a digest of the conversation's key, so that the key itself is never
//! stored; it holds identifiers, a lifecycle state and an expiry, no text of a prompt or a reply.
//!
//! The store may be replicated, and a deletion that travels between replicas can kill a newer
//! entry. So a shared store is never deleted from: a finished conversation is overwritten by a
//! tombstone, which reads pass over and which the store's own time to live removes. Changes are
//! compare-and-swap writes with a bounded number of attempts, and none of them brings a finished
//! conversation back.
//!
//! Talking to the store is left to the caller. An operation here is a sequence of [`Step`]s: each
//! asks for one request to the store, and the reply gives the next.
use vstd::prelude::*;
use vstd::utf8::encode_utf8;

use crate::a2a::{Continuation, ContinuationView, StateClass};
use crate::digest::{hex_text, lemma_hex_injective, sha256, sha256_digest, to_hex};
use crate::text::text_of;

verus! {

/// What every key begins with.
pub const KEY_PREFIX: &'static str = "rest-to-a2a:";

/// How often a contended change is tried again.
pub const CAS_MAX_RETRIES: u32 = 3;

/// The key of a conversation in the store: the prefix, and a digest in hexadecimal.
#[derive(Debug, PartialEq, Eq)]
pub struct CacheKey(String);

impl View for CacheKey {
    type V = Seq<char>;

    closed spec fn view(&self) -> Seq<char> {
        self.0@
    }
}

/// The key that a digest stands for.
pub open spec fn key_of_digest(digest: Seq<u8>) -> Seq<char> {
    KEY_PREFIX@ + hex_text(digest)
}

/// The key of the conversation that the caller calls `conversation`.
pub open spec fn key_of(conversation: Seq<char>) -> Seq<char> {
    key_of_digest(sha256_digest(encode_utf8(conversation)))
}

impl Clone for CacheKey {
    fn clone(&self) -> (copy: CacheKey)
        ensures
            copy@ == self@,
    {
        CacheKey(self.0.clone())
    }
}

impl CacheKey {
    /// The key that a digest stands for.
    pub fn of_digest(digest: &[u8]) -> (key: CacheKey)
        ensures
            key@ == key_of_digest(digest@),
    {
        let mut text = KEY_PREFIX.to_owned();
        text.append(to_hex(digest).as_str());
        CacheKey(text)
    }

    /// The key of a conversation. Of the conversation's own name it shows a digest only.
    pub fn from_hashed(conversation_value: &str) -> (key: CacheKey)
        ensures
            key@ == key_of(conversation_value@),
            key@.len() == KEY_PREFIX@.len() + 64,
    {
        CacheKey::of_digest(sha256(conversation_value.as_bytes()).as_slice())
    }

    /// The key as text.
    pub fn as_str(&self) -> (text: &str)
        ensures
            text@ == self@,
    {
        self.0.as_str()
    }
}

/// Two conversations share a key exactly where their digests are the same.
pub proof fn law_keys_differ_where_digests_differ(a: Seq<char>, b: Seq<char>)
    ensures
        key_of(a) == key_of(b) <==> sha256_digest(encode_utf8(a)) == sha256_digest(encode_utf8(b)),
{
    if key_of(a) == key_of(b) {
        let left = hex_text(sha256_digest(encode_utf8(a)));
        let right = hex_text(sha256_digest(encode_utf8(b)));
        assert(key_of(a).skip(KEY_PREFIX@.len() as int) =~= left);
        assert(key_of(b).skip(KEY_PREFIX@.len() as int) =~= right);
        lemma_hex_injective(sha256_digest(encode_utf8(a)), sha256_digest(encode_utf8(b)));
    }
}

/// Where a conversation stands.
#[derive(Debug, Clone, Copy, PartialEq, Eq, Structural)]
pub enum EntryState {
    /// It can be resumed.
    Continuable,
    /// It is over: the entry is a tombstone.
    Terminal,
}

/// What is kept of a conversation.
#[derive(Debug, PartialEq)]
pub struct ConversationEntry {
    pub context_id: Option<String>,
    pub task_id: Option<String>,
    pub state: EntryState,
    /// When the entry expires, in milliseconds of Unix time. A replica may serve an entry that the
    /// store's own time to live has removed elsewhere.
    pub expires_at_millis: u64,
}

/// The contents of a `ConversationEntry`.
pub struct EntryView {
    pub continuation: ContinuationView,
    pub state: EntryState,
    pub expires_at_millis: u64,
}

impl View for ConversationEntry {
    type V = EntryView;

    open spec fn view(&self) -> EntryView {
        EntryView {
            continuation: ContinuationView {
                task_id: text_of(self.task_id),
                context_id: text_of(self.context_id),
            },
            state: self.state,
            expires_at_millis: self.expires_at_millis,
        }
    }
}

impl EntryView {
    /// The identifiers to resume with at the time `now`.
    pub open spec fn live(self, now_millis: u64) -> Option<ContinuationView> {
        if self.state == EntryState::Continuable && now_millis < self.expires_at_millis {
            Some(self.continuation)
        } else {
            None
        }
    }
}

impl Clone for ConversationEntry {
    fn clone(&self) -> (copy: ConversationEntry)
        ensures
            copy@ == self@,
    {
        ConversationEntry {
            context_id: self.context_id.clone(),
            task_id: self.task_id.clone(),
            state: self.state,
            expires_at_millis: self.expires_at_millis,
        }
    }
}

impl ConversationEntry {
    /// Whether the conversation can be resumed.
    pub fn is_continuable(&self) -> (yes: bool)
        ensures
            yes == (self@.state == EntryState::Continuable),
    {
        self.state == EntryState::Continuable
    }

    /// Whether the entry has expired at the time `now_millis`.
    pub fn is_expired(&self, now_millis: u64) -> (yes: bool)
        ensures
            yes == (now_millis >= self@.expires_at_millis),
    {
        now_millis >= self.expires_at_millis
    }

    /// The identifiers that the entry keeps.
    pub fn continuation(&self) -> (continuation: Continuation)
        ensures
            continuation@ == self@.continuation,
    {
        Continuation { task_id: self.task_id.clone(), context_id: self.context_id.clone() }
    }
}

/// `pdk`'s error of a request to the store.
#[verifier::external_type_specification]
#[verifier::external_body]
pub struct ExDataStorageError(pdk::data_storage::DataStorageError);

/// How a store's error describes itself; `None` where it says that the version did not match.
pub uninterp spec fn failure_text(error: pdk::data_storage::DataStorageError) -> Option<Seq<char>>;

/// The `Debug` form of `pdk::data_storage::DataStorageError`. Its variant `CasMismatch`, which says
/// that the version did not match, is told apart by `None`.
#[verifier::external_body]
fn describe_failure(error: pdk::data_storage::DataStorageError) -> (text: Option<String>)
    ensures
        text_of(text) == failure_text(error),
{
    match error {
        pdk::data_storage::DataStorageError::CasMismatch => None,
        other => Some(format!("{other:?}")),
    }
}

/// Why a request to the store failed.
#[derive(Debug, Clone, PartialEq, Eq)]
pub enum CacheError {
    /// The entry is not the one that the request counted on. The request may be tried again.
    CasConflict,
    /// Anything else.
    Storage(String),
}

/// The contents of a `CacheError`.
pub enum CacheErrorView {
    CasConflict,
    Storage(Seq<char>),
}

impl View for CacheError {
    type V = CacheErrorView;

    open spec fn view(&self) -> CacheErrorView {
        match self {
            CacheError::CasConflict => CacheErrorView::CasConflict,
            CacheError::Storage(text) => CacheErrorView::Storage(text@),
        }
    }
}

impl CacheError {
    /// What failed, for the log.
    pub fn message(&self) -> (text: String)
        ensures
            text@ == match self@ {
                CacheErrorView::CasConflict => "compare-and-swap conflict"@,
                CacheErrorView::Storage(cause) => "storage error: "@ + cause,
            },
    {
        match self {
            CacheError::CasConflict => "compare-and-swap conflict".to_owned(),
            CacheError::Storage(cause) => {
                let mut text = "storage error: ".to_owned();
                text.append(cause.as_str());
                text
            },
        }
    }
}

impl From<pdk::data_storage::DataStorageError> for CacheError {
    fn from(error: pdk::data_storage::DataStorageError) -> (failure: CacheError)
        ensures
            failure@ == match failure_text(error) {
                None => CacheErrorView::CasConflict,
                Some(text) => CacheErrorView::Storage(text),
            },
    {
        match describe_failure(error) {
            None => CacheError::CasConflict,
            Some(text) => CacheError::Storage(text),
        }
    }
}

impl vstd::std_specs::convert::FromSpecImpl<pdk::data_storage::DataStorageError> for CacheError {
    open spec fn obeys_from_spec() -> bool {
        false
    }

    open spec fn from_spec(error: pdk::data_storage::DataStorageError) -> CacheError {
        choose|failure: CacheError|
            #[trigger] failure@ == match failure_text(error) {
                None => CacheErrorView::CasConflict,
                Some(text) => CacheErrorView::Storage(text),
            }
    }
}

/// What the store replies to a read: the entry and its version, where there is one.
pub type Reading = Result<Option<(ConversationEntry, String)>, CacheError>;

/// The contents of a `Reading`.
pub type ReadingView = Result<Option<(EntryView, Seq<char>)>, CacheErrorView>;

/// The contents of a `Reading`.
pub open spec fn reading_view(reading: Reading) -> ReadingView {
    match reading {
        Ok(Some((entry, version))) => Ok(Some((entry@, version@))),
        Ok(None) => Ok(None),
        Err(error) => Err(error@),
    }
}

/// What the store replies to a write or a deletion.
pub type Outcome = Result<(), CacheError>;

/// The contents of an `Outcome`.
pub type OutcomeView = Result<(), CacheErrorView>;

/// The contents of an `Outcome`.
pub open spec fn outcome_view(outcome: Outcome) -> OutcomeView {
    match outcome {
        Ok(()) => Ok(()),
        Err(error) => Err(error@),
    }
}

/// When a write takes place.
#[derive(Debug, PartialEq, Eq)]
pub enum StoreMode {
    /// Where there is no entry under the key.
    Absent,
    /// Where the entry under the key has that version.
    Cas(String),
}

/// The contents of a `StoreMode`.
pub enum StoreModeView {
    Absent,
    Cas(Seq<char>),
}

impl View for StoreMode {
    type V = StoreModeView;

    open spec fn view(&self) -> StoreModeView {
        match self {
            StoreMode::Absent => StoreModeView::Absent,
            StoreMode::Cas(version) => StoreModeView::Cas(version@),
        }
    }
}

/// A change that waits for a read of its key.
#[derive(Debug)]
pub struct AwaitingRead {
    key: CacheKey,
    entry: ConversationEntry,
    attempts: u32,
}

/// The contents of an `AwaitingRead`: what is to be written in the end, and how many writes are
/// left to try it with.
pub struct AwaitingReadView {
    pub key: Seq<char>,
    pub entry: EntryView,
    pub attempts: nat,
}

impl View for AwaitingRead {
    type V = AwaitingReadView;

    closed spec fn view(&self) -> AwaitingReadView {
        AwaitingReadView {
            key: self.key@,
            entry: self.entry@,
            attempts: self.attempts as nat,
        }
    }
}

/// A change that waits for a write.
#[derive(Debug)]
pub struct AwaitingWrite {
    key: CacheKey,
    mode: StoreMode,
    entry: ConversationEntry,
    attempts: u32,
}

/// The contents of an `AwaitingWrite`: the write, and how many more may follow it.
pub struct AwaitingWriteView {
    pub key: Seq<char>,
    pub mode: StoreModeView,
    pub entry: EntryView,
    pub attempts: nat,
}

impl View for AwaitingWrite {
    type V = AwaitingWriteView;

    closed spec fn view(&self) -> AwaitingWriteView {
        AwaitingWriteView {
            key: self.key@,
            mode: self.mode@,
            entry: self.entry@,
            attempts: self.attempts as nat,
        }
    }
}

/// A change that waits for a deletion.
#[derive(Debug)]
pub struct AwaitingDelete {
    key: CacheKey,
}

impl View for AwaitingDelete {
    type V = Seq<char>;

    closed spec fn view(&self) -> Seq<char> {
        self.key@
    }
}

/// The next request of a change to the store.
#[derive(Debug)]
pub enum Step {
    /// Read the entry under the key.
    Read(AwaitingRead),
    /// Write the entry under the key.
    Write(AwaitingWrite),
    /// Delete the entry under the key.
    Delete(AwaitingDelete),
    /// No request is left.
    Finished(Outcome),
}

/// The contents of a `Step`.
pub enum StepView {
    Read(AwaitingReadView),
    Write(AwaitingWriteView),
    Delete(Seq<char>),
    Finished(OutcomeView),
}

impl View for Step {
    type V = StepView;

    open spec fn view(&self) -> StepView {
        match *self {
            Step::Read(waiting) => StepView::Read(waiting@),
            Step::Write(waiting) => StepView::Write(waiting@),
            Step::Delete(waiting) => StepView::Delete(waiting@),
            Step::Finished(outcome) => StepView::Finished(outcome_view(outcome)),
        }
    }
}

impl AwaitingReadView {
    /// What follows a read. A conversation that is over stays as it is. Otherwise the entry that
    /// was read is replaced; where there is none, a live entry is created, and a tombstone is not
    /// needed.
    pub open spec fn after(self, reading: ReadingView) -> StepView {
        match reading {
            Err(error) => StepView::Finished(Err(error)),
            Ok(Some((found, version))) => if found.state == EntryState::Terminal {
                StepView::Finished(Ok(()))
            } else {
                StepView::Write(self.written(StoreModeView::Cas(version)))
            },
            Ok(None) => if self.entry.state == EntryState::Terminal {
                StepView::Finished(Ok(()))
            } else {
                StepView::Write(self.written(StoreModeView::Absent))
            },
        }
    }

    /// The write that follows a read.
    pub open spec fn written(self, mode: StoreModeView) -> AwaitingWriteView {
        AwaitingWriteView {
            key: self.key,
            mode,
            entry: self.entry,
            attempts: (self.attempts - 1) as nat,
        }
    }
}

impl AwaitingWriteView {
    /// What follows a write. A conflict leads back to a read as long as a write is left.
    pub open spec fn after(self, outcome: OutcomeView) -> StepView {
        match outcome {
            Err(CacheErrorView::CasConflict) => if self.attempts == 0 {
                StepView::Finished(Err(CacheErrorView::CasConflict))
            } else {
                StepView::Read(
                    AwaitingReadView {
                        key: self.key,
                        entry: self.entry,
                        attempts: self.attempts,
                    },
                )
            },
            _ => StepView::Finished(outcome),
        }
    }
}

impl AwaitingRead {
    #[verifier::type_invariant]
    spec fn well_formed(self) -> bool {
        self.attempts > 0
    }

    /// The key to read.
    pub fn key(&self) -> (key: &str)
        ensures
            key@ == self@.key,
    {
        self.key.as_str()
    }

    /// What follows the read.
    pub fn after(self, reading: Reading) -> (step: Step)
        ensures
            step@ == self@.after(reading_view(reading)),
    {
        proof {
            use_type_invariant(&self);
        }
        let mode = match reading {
            Err(error) => {
                return Step::Finished(Err(error));
            },
            Ok(Some((found, version))) => {
                if !found.is_continuable() {
                    return Step::Finished(Ok(()));
                }
                StoreMode::Cas(version)
            },
            Ok(None) => {
                if !self.entry.is_continuable() {
                    return Step::Finished(Ok(()));
                }
                StoreMode::Absent
            },
        };
        Step::Write(
            AwaitingWrite {
                key: self.key,
                mode,
                entry: self.entry,
                attempts: self.attempts - 1,
            },
        )
    }
}

impl AwaitingWrite {
    /// The key to write under.
    pub fn key(&self) -> (key: &str)
        ensures
            key@ == self@.key,
    {
        self.key.as_str()
    }

    /// When the write takes place.
    pub fn mode(&self) -> (mode: &StoreMode)
        ensures
            mode@ == self@.mode,
    {
        &self.mode
    }

    /// The entry to write.
    pub fn entry(&self) -> (entry: &ConversationEntry)
        ensures
            entry@ == self@.entry,
    {
        &self.entry
    }

    /// What follows the write.
    pub fn after(self, outcome: Outcome) -> (step: Step)
        ensures
            step@ == self@.after(outcome_view(outcome)),
    {
        match outcome {
            Err(CacheError::CasConflict) => {
                if self.attempts == 0 {
                    Step::Finished(Err(CacheError::CasConflict))
                } else {
                    Step::Read(
                        AwaitingRead {
                            key: self.key,
                            entry: self.entry,
                            attempts: self.attempts,
                        },
                    )
                }
            },
            outcome => Step::Finished(outcome),
        }
    }
}

impl AwaitingDelete {
    /// The key to delete.
    pub fn key(&self) -> (key: &str)
        ensures
            key@ == self@,
    {
        self.key.as_str()
    }

    /// What follows the deletion.
    pub fn after(self, outcome: Outcome) -> (step: Step)
        ensures
            step@ == StepView::Finished(outcome_view(outcome)),
    {
        Step::Finished(outcome)
    }
}

/// The rules by which conversations are kept.
#[derive(Debug, Clone, Copy, PartialEq, Eq, Structural)]
pub struct ConversationStore {
    /// Whether replicas share the store.
    distributed: bool,
    ttl_millis: u64,
}

impl ConversationStore {
    /// Whether replicas share the store.
    pub closed spec fn is_distributed(&self) -> bool {
        self.distributed
    }

    /// How long an entry lives.
    pub closed spec fn ttl(&self) -> u64 {
        self.ttl_millis
    }

    /// The rules for a store whose entries live for `ttl_seconds`.
    pub closed spec fn of(distributed: bool, ttl_seconds: u32) -> ConversationStore {
        ConversationStore { distributed, ttl_millis: (ttl_seconds * 1000) as u64 }
    }

    /// What the rules are.
    pub proof fn lemma_of(distributed: bool, ttl_seconds: u32)
        ensures
            ConversationStore::of(distributed, ttl_seconds).is_distributed() == distributed,
            ConversationStore::of(distributed, ttl_seconds).ttl() == ttl_seconds * 1000,
    {
    }

    /// The entry of a conversation that can be resumed.
    pub open spec fn live_entry(&self, continuation: ContinuationView, now: u64) -> EntryView {
        EntryView {
            continuation,
            state: EntryState::Continuable,
            expires_at_millis: (now + self.ttl()) as u64,
        }
    }

    /// The tombstone of a conversation that is over.
    pub open spec fn tombstone(&self, now: u64) -> EntryView {
        EntryView {
            continuation: ContinuationView::none(),
            state: EntryState::Terminal,
            expires_at_millis: (now + self.ttl()) as u64,
        }
    }

    /// The first step of keeping a conversation: its entry is created, and only where there is one
    /// already, replaced.
    pub open spec fn upsert_view(
        &self,
        key: Seq<char>,
        continuation: ContinuationView,
        now: u64,
    ) -> StepView {
        StepView::Write(
            AwaitingWriteView {
                key,
                mode: StoreModeView::Absent,
                entry: self.live_entry(continuation, now),
                attempts: CAS_MAX_RETRIES as nat,
            },
        )
    }

    /// The first step of giving a conversation up: a deletion, or, in a shared store, a read that
    /// a tombstone may follow.
    pub open spec fn evict_view(&self, key: Seq<char>, now: u64) -> StepView {
        if self.is_distributed() {
            StepView::Read(
                AwaitingReadView {
                    key,
                    entry: self.tombstone(now),
                    attempts: CAS_MAX_RETRIES as nat,
                },
            )
        } else {
            StepView::Delete(key)
        }
    }

    /// The first step of recording how a send came out.
    pub open spec fn record_view(
        &self,
        key: Seq<char>,
        class: StateClass,
        continuation: ContinuationView,
        now: u64,
    ) -> StepView {
        match class {
            StateClass::Continuable => self.upsert_view(key, continuation, now),
            StateClass::Terminal => self.evict_view(key, now),
            StateClass::Unknown => StepView::Finished(Ok(())),
        }
    }

    /// The rules for a store whose entries live for `ttl_seconds`.
    pub fn new(distributed: bool, ttl_seconds: u32) -> (store: ConversationStore)
        ensures
            store == ConversationStore::of(distributed, ttl_seconds),
            store.is_distributed() == distributed,
            store.ttl() == ttl_seconds * 1000,
    {
        ConversationStore { distributed, ttl_millis: ttl_seconds as u64 * 1000 }
    }

    /// The identifiers to resume a conversation with, from what its key holds. An entry that has
    /// expired or is over gives none, and so does a read that failed: the send is then a fresh one.
    pub fn get_continuation(&self, reading: &Reading, now_millis: u64) -> (continuation: Option<
        Continuation,
    >)
        ensures
            match (continuation, live_view(reading_view(*reading), now_millis)) {
                (Some(continuation), Some(live)) => continuation@ == live,
                (None, None) => true,
                _ => false,
            },
    {
        match reading {
            Ok(Some((entry, _))) => {
                if entry.is_expired(now_millis) || !entry.is_continuable() {
                    None
                } else {
                    Some(entry.continuation())
                }
            },
            _ => None,
        }
    }

    /// Records how a send came out: a conversation that goes on is kept, one that is over is given
    /// up, and any other is left alone.
    pub fn record_outcome(
        &self,
        key: &CacheKey,
        class: StateClass,
        continuation: &Continuation,
        now_millis: u64,
    ) -> (step: Step)
        requires
            class == StateClass::Continuable || (class == StateClass::Terminal
                && self.is_distributed()) ==> now_millis + self.ttl() <= u64::MAX,
        ensures
            step@ == self.record_view(key@, class, continuation@, now_millis),
    {
        match class {
            StateClass::Continuable => self.upsert(key, continuation, now_millis),
            StateClass::Terminal => self.evict(key, now_millis),
            StateClass::Unknown => Step::Finished(Ok(())),
        }
    }

    /// Keeps a conversation.
    pub fn upsert(&self, key: &CacheKey, continuation: &Continuation, now_millis: u64) -> (step:
        Step)
        requires
            now_millis + self.ttl() <= u64::MAX,
        ensures
            step@ == self.upsert_view(key@, continuation@, now_millis),
    {
        let entry = ConversationEntry {
            context_id: continuation.context_id.clone(),
            task_id: continuation.task_id.clone(),
            state: EntryState::Continuable,
            expires_at_millis: now_millis + self.ttl_millis,
        };
        Step::Write(
            AwaitingWrite {
                key: key.clone(),
                mode: StoreMode::Absent,
                entry,
                attempts: CAS_MAX_RETRIES,
            },
        )
    }

    /// Gives a conversation up.
    pub fn evict(&self, key: &CacheKey, now_millis: u64) -> (step: Step)
        requires
            self.is_distributed() ==> now_millis + self.ttl() <= u64::MAX,
        ensures
            step@ == self.evict_view(key@, now_millis),
    {
        if !self.distributed {
            return Step::Delete(AwaitingDelete { key: key.clone() });
        }
        let entry = ConversationEntry {
            context_id: None,
            task_id: None,
            state: EntryState::Terminal,
            expires_at_millis: now_millis + self.ttl_millis,
        };
        Step::Read(AwaitingRead { key: key.clone(), entry, attempts: CAS_MAX_RETRIES })
    }
}

/// The identifiers to resume a conversation with, from what its key holds.
pub open spec fn live_view(reading: ReadingView, now_millis: u64) -> Option<ContinuationView> {
    match reading {
        Ok(Some((entry, _))) => entry.live(now_millis),
        _ => None,
    }
}

/// A key is the prefix, and behind it the digest of the conversation's name in hexadecimal.
pub proof fn law_key_is_prefix_and_digest(conversation: Seq<char>)
    ensures
        key_of(conversation).take(12) == "rest-to-a2a:"@,
        key_of(conversation).skip(12) == hex_text(sha256_digest(encode_utf8(conversation))),
{
    reveal_strlit("rest-to-a2a:");
    assert(key_of(conversation).take(12) =~= "rest-to-a2a:"@);
    assert(key_of(conversation).skip(12) =~= hex_text(sha256_digest(encode_utf8(conversation))));
}

/// An entry is seen as it is. It gives its identifiers, both of them, exactly where it is no
/// tombstone and the time is before its expiry.
pub proof fn law_entry_gives_its_identifiers_while_it_lives(entry: ConversationEntry, now: u64)
    ensures
        entry@.state == entry.state,
        entry@.expires_at_millis == entry.expires_at_millis,
        entry@.continuation.task_id == text_of(entry.task_id),
        entry@.continuation.context_id == text_of(entry.context_id),
        entry@.live(now) is Some <==> entry.state == EntryState::Continuable && now
            < entry.expires_at_millis,
        entry@.live(now) is Some ==> entry@.live(now)->0 == entry@.continuation,
{
}

/// What a read finds is judged by the entry alone: its version does not matter, and where there is
/// none, or the read failed, there is nothing to resume.
pub proof fn law_reading_is_judged_by_its_entry(
    entry: EntryView,
    version: Seq<char>,
    error: CacheErrorView,
    now: u64,
)
    ensures
        live_view(Ok(Some((entry, version))), now) == entry.live(now),
        live_view(Ok(None), now) is None,
        live_view(Err(error), now) is None,
{
}

/// The replies of the store, and its errors, are seen as they are.
pub proof fn law_replies_are_seen_whole(
    entry: ConversationEntry,
    version: String,
    error: CacheError,
    text: String,
)
    ensures
        reading_view(Ok(Some((entry, version)))) == Ok::<
            Option<(EntryView, Seq<char>)>,
            CacheErrorView,
        >(Some((entry@, version@))),
        reading_view(Ok(None)) == Ok::<Option<(EntryView, Seq<char>)>, CacheErrorView>(None),
        reading_view(Err(error)) == Err::<Option<(EntryView, Seq<char>)>, CacheErrorView>(error@),
        outcome_view(Ok(())) == Ok::<(), CacheErrorView>(()),
        outcome_view(Err(error)) == Err::<(), CacheErrorView>(error@),
        CacheError::CasConflict@ == CacheErrorView::CasConflict,
        CacheError::Storage(text)@ == CacheErrorView::Storage(text@),
        StoreMode::Absent@ == StoreModeView::Absent,
        StoreMode::Cas(version)@ == StoreModeView::Cas(version@),
{
}

/// A step is seen as what it is.
pub proof fn law_steps_are_seen_whole(step: Step)
    ensures
        step matches Step::Read(waiting) ==> step@ == StepView::Read(waiting@),
        step matches Step::Write(waiting) ==> step@ == StepView::Write(waiting@),
        step matches Step::Delete(waiting) ==> step@ == StepView::Delete(waiting@),
        step matches Step::Finished(outcome) ==> step@ == StepView::Finished(outcome_view(outcome)),
{
}

/// What follows a read. A failure ends the change with that failure. A tombstone ends it well, and
/// so does a tombstone that is to be written where there is nothing. Otherwise the entry is
/// written, under the same key, over the version that was read or where there is none, and one
/// write less is left.
pub proof fn law_what_follows_a_read(waiting: AwaitingReadView, reading: ReadingView)
    requires
        waiting.attempts > 0,
    ensures
        reading is Err ==> waiting.after(reading) == StepView::Finished(
            Err::<(), CacheErrorView>(reading->Err_0),
        ),
        reading matches Ok(Some((found, version))) ==> {
            let next = waiting.after(reading);
            &&& found.state == EntryState::Terminal ==> next == StepView::Finished(
                Ok::<(), CacheErrorView>(()),
            )
            &&& found.state == EntryState::Continuable ==> {
                &&& next is Write
                &&& next->Write_0.key == waiting.key
                &&& next->Write_0.entry == waiting.entry
                &&& next->Write_0.mode == StoreModeView::Cas(version)
                &&& next->Write_0.attempts + 1 == waiting.attempts
            }
        },
        reading is Ok && reading->Ok_0 is None ==> {
            let next = waiting.after(reading);
            &&& waiting.entry.state == EntryState::Terminal ==> next == StepView::Finished(
                Ok::<(), CacheErrorView>(()),
            )
            &&& waiting.entry.state == EntryState::Continuable ==> {
                &&& next is Write
                &&& next->Write_0.key == waiting.key
                &&& next->Write_0.entry == waiting.entry
                &&& next->Write_0.mode == StoreModeView::Absent
                &&& next->Write_0.attempts + 1 == waiting.attempts
            }
        },
{
}

/// What follows a write. It ends the change, well or with its failure; a conflict, and nothing
/// else, leads to a read of the same key for the same entry, as long as a write is left.
pub proof fn law_what_follows_a_write(waiting: AwaitingWriteView, outcome: OutcomeView)
    ensures
        ({
            let next = waiting.after(outcome);
            let again = outcome is Err && outcome->Err_0 is CasConflict && waiting.attempts > 0;
            &&& !again ==> next == StepView::Finished(outcome)
            &&& again ==> {
                &&& next is Read
                &&& next->Read_0.key == waiting.key
                &&& next->Read_0.entry == waiting.entry
                &&& next->Read_0.attempts == waiting.attempts
            }
        }),
{
}

/// How a change begins. A conversation that goes on is written, as one that is not there yet, with
/// its identifiers, alive for the time to live, and three more writes may follow. One that is over
/// is deleted from a local store; in a shared one it is read first, and a tombstone without
/// identifiers may be written, three times at most. Anything else is left alone.
pub proof fn law_how_a_change_begins(
    store: ConversationStore,
    key: Seq<char>,
    continuation: ContinuationView,
    now: u64,
)
    requires
        now + store.ttl() <= u64::MAX,
    ensures
        ({
            let kept = store.record_view(key, StateClass::Continuable, continuation, now);
            &&& kept is Write
            &&& kept->Write_0.key == key
            &&& kept->Write_0.mode == StoreModeView::Absent
            &&& kept->Write_0.entry.continuation == continuation
            &&& kept->Write_0.entry.state == EntryState::Continuable
            &&& kept->Write_0.entry.expires_at_millis == now + store.ttl()
            &&& kept->Write_0.attempts == 3
        }),
        ({
            let over = store.record_view(key, StateClass::Terminal, continuation, now);
            &&& !store.is_distributed() ==> over == StepView::Delete(key)
            &&& store.is_distributed() ==> {
                &&& over is Read
                &&& over->Read_0.key == key
                &&& over->Read_0.entry.continuation.task_id is None
                &&& over->Read_0.entry.continuation.context_id is None
                &&& over->Read_0.entry.state == EntryState::Terminal
                &&& over->Read_0.entry.expires_at_millis == now + store.ttl()
                &&& over->Read_0.attempts == 3
            }
        }),
        store.record_view(key, StateClass::Unknown, continuation, now) == StepView::Finished(
            Ok::<(), CacheErrorView>(()),
        ),
        store.upsert_view(key, continuation, now) == store.record_view(
            key,
            StateClass::Continuable,
            continuation,
            now,
        ),
        store.evict_view(key, now) == store.record_view(
            key,
            StateClass::Terminal,
            continuation,
            now,
        ),
{
}

} // verus!
