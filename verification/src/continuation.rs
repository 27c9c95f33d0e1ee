//! Which task a request continues, and what is recorded of the reply.
//!
//! There are three modes, and a request goes by one of them. In the cache mode the identifiers are
//! kept under a key of the conversation; in the explicit mode the caller sends them; in the third
//! mode every request stands alone. The store is touched in the cache mode only.
use vstd::prelude::*;

use crate::a2a::{Continuation, ContinuationView, StateClass};
use crate::cache::{
    key_of, live_view, reading_view, CacheErrorView, CacheKey, ConversationStore, EntryState,
    EntryView, Reading, ReadingView, Step, StepView,
};
use crate::cache_laws::{
    carried_out, found, law_finished_conversation_is_not_resumed, law_kept_conversation_is_resumed,
    Backend,
};
use crate::text::text_of;

verus! {

/// What a request continues.
#[derive(Debug, PartialEq)]
pub struct RequestContinuation {
    /// The identifiers that the send carries; none where the conversation is a fresh one.
    pub continuation: Continuation,
    /// The key under which the outcome is recorded. Only the cache mode has one.
    pub cache_key: Option<CacheKey>,
    /// Whether the send carries an identifier.
    pub had_continuation_id: bool,
}

/// The contents of a `RequestContinuation`.
pub struct RequestContinuationView {
    pub continuation: ContinuationView,
    pub cache_key: Option<Seq<char>>,
    pub had_continuation_id: bool,
}

/// The text of an optional key.
pub open spec fn key_text(key: Option<CacheKey>) -> Option<Seq<char>> {
    match key {
        Some(key) => Some(key@),
        None => None,
    }
}

impl View for RequestContinuation {
    type V = RequestContinuationView;

    open spec fn view(&self) -> RequestContinuationView {
        RequestContinuationView {
            continuation: self.continuation@,
            cache_key: key_text(self.cache_key),
            had_continuation_id: self.had_continuation_id,
        }
    }
}

impl RequestContinuationView {
    /// A request that stands alone.
    pub open spec fn fresh() -> RequestContinuationView {
        RequestContinuationView {
            continuation: ContinuationView::none(),
            cache_key: None,
            had_continuation_id: false,
        }
    }

    /// Whether a later turn can pick the task up: its identifiers are kept, or the caller has one.
    pub open spec fn is_resumable(self) -> bool {
        self.cache_key is Some || self.had_continuation_id
    }
}

impl Default for RequestContinuation {
    fn default() -> (request: RequestContinuation)
        ensures
            request@ == RequestContinuationView::fresh(),
    {
        RequestContinuation {
            continuation: Continuation::default(),
            cache_key: None,
            had_continuation_id: false,
        }
    }
}

impl Clone for RequestContinuation {
    fn clone(&self) -> (copy: RequestContinuation)
        ensures
            copy@ == self@,
    {
        RequestContinuation {
            continuation: self.continuation.clone(),
            cache_key: match &self.cache_key {
                Some(key) => Some(key.clone()),
                None => None,
            },
            had_continuation_id: self.had_continuation_id,
        }
    }
}

impl RequestContinuation {
    /// Whether a later turn can pick the task up.
    pub fn is_resumable(&self) -> (yes: bool)
        ensures
            yes == self@.is_resumable(),
    {
        self.cache_key.is_some() || self.had_continuation_id
    }
}

/// What a request of the cache mode continues, from the caller's name of the conversation and what
/// the store holds under its key. Also where that is nothing, the key goes along: the outcome is
/// recorded under it.
pub open spec fn cached_view(
    conversation: Option<Seq<char>>,
    reading: ReadingView,
    now_millis: u64,
) -> RequestContinuationView {
    match conversation {
        None => RequestContinuationView::fresh(),
        Some(conversation) => {
            let continuation = match live_view(reading, now_millis) {
                Some(live) => live,
                None => ContinuationView::none(),
            };
            RequestContinuationView {
                continuation,
                cache_key: Some(key_of(conversation)),
                had_continuation_id: continuation != ContinuationView::none(),
            }
        },
    }
}

/// The key to read before a request of the cache mode is resolved; none where the caller does not
/// name the conversation.
pub fn conversation_key(conversation_value: &Option<String>) -> (key: Option<CacheKey>)
    ensures
        key_text(key) == match text_of(*conversation_value) {
            Some(conversation) => Some(key_of(conversation)),
            None => None,
        },
{
    match conversation_value {
        Some(value) => Some(CacheKey::from_hashed(value.as_str())),
        None => None,
    }
}

/// Resolves a request of the cache mode. `reading` is what the store holds under the key of the
/// conversation.
pub fn resolve_cache(
    store: &ConversationStore,
    conversation_value: Option<String>,
    reading: &Reading,
    now_millis: u64,
) -> (request: RequestContinuation)
    ensures
        request@ == cached_view(text_of(conversation_value), reading_view(*reading), now_millis),
{
    match conversation_value {
        None => RequestContinuation::default(),
        Some(value) => {
            let key = CacheKey::from_hashed(value.as_str());
            let continuation = match store.get_continuation(reading, now_millis) {
                Some(continuation) => continuation,
                None => Continuation::default(),
            };
            let had_continuation_id = !continuation.is_empty();
            RequestContinuation { continuation, cache_key: Some(key), had_continuation_id }
        },
    }
}

/// What a request of the explicit mode continues: what the caller says.
pub open spec fn explicit_view(
    task_id: Option<Seq<char>>,
    context_id: Option<Seq<char>>,
) -> RequestContinuationView {
    RequestContinuationView {
        continuation: ContinuationView { task_id, context_id },
        cache_key: None,
        had_continuation_id: task_id is Some || context_id is Some,
    }
}

/// Resolves a request of the explicit mode.
pub fn resolve_explicit(task_id: Option<String>, context_id: Option<String>) -> (request:
    RequestContinuation)
    ensures
        request@ == explicit_view(text_of(task_id), text_of(context_id)),
{
    let continuation = Continuation { task_id, context_id };
    let had_continuation_id = !continuation.is_empty();
    RequestContinuation { continuation, cache_key: None, had_continuation_id }
}

/// The first step of recording the outcome of a request: nothing to do without a key.
pub open spec fn persist_view(
    store: ConversationStore,
    request: RequestContinuationView,
    class: StateClass,
    continuation: ContinuationView,
    now_millis: u64,
) -> StepView {
    match request.cache_key {
        None => StepView::Finished(Ok(())),
        Some(key) => store.record_view(key, class, continuation, now_millis),
    }
}

/// Records the outcome of a request under its key.
pub fn persist_outcome(
    store: &ConversationStore,
    request: &RequestContinuation,
    class: StateClass,
    response_continuation: &Continuation,
    now_millis: u64,
) -> (step: Step)
    requires
        request@.cache_key is Some && (class == StateClass::Continuable || (class
            == StateClass::Terminal && store.is_distributed())) ==> now_millis + store.ttl()
            <= u64::MAX,
    ensures
        step@ == persist_view(*store, request@, class, response_continuation@, now_millis),
{
    match &request.cache_key {
        None => Step::Finished(Ok(())),
        Some(key) => store.record_outcome(key, class, response_continuation, now_millis),
    }
}

/// Whether the upstream agent wants to go on with a task that no later turn can pick up.
pub fn is_unresumable_continuable(request: &RequestContinuation, class: StateClass) -> (yes: bool)
    ensures
        yes == (class == StateClass::Continuable && !request@.is_resumable()),
{
    class == StateClass::Continuable && !request.is_resumable()
}

/// A request of the explicit mode, and one that stands alone, makes no request to the store,
/// whatever the reply to it was.
pub proof fn law_store_is_touched_in_cache_mode_only(
    store: ConversationStore,
    task_id: Option<Seq<char>>,
    context_id: Option<Seq<char>>,
    class: StateClass,
    continuation: ContinuationView,
    now: u64,
)
    ensures
        persist_view(store, explicit_view(task_id, context_id), class, continuation, now)
            == StepView::Finished(Ok::<(), CacheErrorView>(())),
        persist_view(store, RequestContinuationView::fresh(), class, continuation, now)
            == StepView::Finished(Ok::<(), CacheErrorView>(())),
{
}

/// A request of the cache mode that names no conversation stands alone, whatever the store holds.
pub proof fn law_unnamed_conversation_stands_alone(
    store: ConversationStore,
    reading: ReadingView,
    class: StateClass,
    continuation: ContinuationView,
    now: u64,
)
    ensures
        cached_view(None, reading, now) == RequestContinuationView::fresh(),
        persist_view(store, cached_view(None, reading, now), class, continuation, now)
            == StepView::Finished(Ok::<(), CacheErrorView>(())),
{
}

/// Two turns of a conversation: the first is answered by a task that goes on, so the second, within
/// the time to live, continues that task. What the store held before does not matter, as long as
/// the conversation was not over.
pub proof fn law_next_turn_resumes_the_task(
    store: ConversationStore,
    backend: Backend,
    conversation: Seq<char>,
    task: ContinuationView,
    now: u64,
    later: u64,
    fresh: Seq<char>,
)
    requires
        now + store.ttl() <= u64::MAX,
        later < now + store.ttl(),
        backend.dom().contains(key_of(conversation)) ==> backend[key_of(conversation)].0.state
            == EntryState::Continuable,
    ensures
        ({
            let first = cached_view(
                Some(conversation),
                found(backend, key_of(conversation)),
                now,
            );
            let (outcome, after) = carried_out(
                persist_view(store, first, StateClass::Continuable, task, now),
                backend,
                fresh,
            );
            let second = cached_view(
                Some(conversation),
                found(after, key_of(conversation)),
                later,
            );
            &&& outcome == Ok::<(), CacheErrorView>(())
            &&& second.continuation == task
            &&& second.had_continuation_id == (task != ContinuationView::none())
        }),
{
    law_kept_conversation_is_resumed(
        store,
        backend,
        key_of(conversation),
        task,
        now,
        later,
        fresh,
    );
}

/// Two turns of a conversation: the first is answered by a task that is over, so the second is a
/// fresh one, at whatever time it comes. Its outcome is still recorded under the key.
pub proof fn law_turn_after_the_end_is_fresh(
    store: ConversationStore,
    backend: Backend,
    conversation: Seq<char>,
    task: ContinuationView,
    now: u64,
    later: u64,
    fresh: Seq<char>,
)
    ensures
        ({
            let first = cached_view(
                Some(conversation),
                found(backend, key_of(conversation)),
                now,
            );
            let (outcome, after) = carried_out(
                persist_view(store, first, StateClass::Terminal, task, now),
                backend,
                fresh,
            );
            let second = cached_view(
                Some(conversation),
                found(after, key_of(conversation)),
                later,
            );
            &&& outcome == Ok::<(), CacheErrorView>(())
            &&& second.continuation == ContinuationView::none()
            &&& !second.had_continuation_id
            &&& second.cache_key == Some(key_of(conversation))
        }),
{
    law_finished_conversation_is_not_resumed(
        store,
        backend,
        key_of(conversation),
        task,
        now,
        later,
        fresh,
    );
}

/// What a request continues is seen as it is. A later turn can pick its task up exactly where it
/// has a key or carries an identifier.
pub proof fn law_request_is_seen_whole(request: RequestContinuation)
    ensures
        request@.continuation == request.continuation@,
        request@.cache_key is Some <==> request.cache_key is Some,
        request.cache_key is Some ==> request@.cache_key->0 == request.cache_key->0@,
        request@.had_continuation_id == request.had_continuation_id,
        request@.is_resumable() <==> request.cache_key is Some || request.had_continuation_id,
        RequestContinuationView::fresh().continuation.task_id is None,
        RequestContinuationView::fresh().continuation.context_id is None,
        RequestContinuationView::fresh().cache_key is None,
        !RequestContinuationView::fresh().had_continuation_id,
{
}

/// A conversation that has a name always has its key. It carries exactly the identifiers of an
/// entry that was found, is no tombstone and has not expired; in every other case it carries none.
pub proof fn law_named_conversation_carries_what_was_found(
    conversation: Seq<char>,
    entry: EntryView,
    version: Seq<char>,
    error: CacheErrorView,
    now: u64,
)
    ensures
        ({
            let request = cached_view(Some(conversation), Ok(Some((entry, version))), now);
            let alive = entry.state == EntryState::Continuable && now < entry.expires_at_millis;
            &&& request.cache_key == Some(key_of(conversation))
            &&& alive ==> request.continuation == entry.continuation
            &&& !alive ==> request.continuation.task_id is None && request.continuation.context_id
                is None
            &&& request.had_continuation_id <==> request.continuation.task_id is Some
                || request.continuation.context_id is Some
        }),
        ({
            let missing = cached_view(Some(conversation), Ok(None), now);
            let failed = cached_view(Some(conversation), Err(error), now);
            &&& missing == failed
            &&& missing.cache_key == Some(key_of(conversation))
            &&& missing.continuation.task_id is None && missing.continuation.context_id is None
            &&& !missing.had_continuation_id
        }),
{
}

/// A request of the explicit mode carries the identifiers that the caller gives, each of them, and
/// has no key.
pub proof fn law_explicit_request_carries_what_is_given(
    task_id: Option<Seq<char>>,
    context_id: Option<Seq<char>>,
)
    ensures
        explicit_view(task_id, context_id).continuation.task_id == task_id,
        explicit_view(task_id, context_id).continuation.context_id == context_id,
        explicit_view(task_id, context_id).cache_key is None,
        explicit_view(task_id, context_id).had_continuation_id <==> task_id is Some || context_id
            is Some,
{
}

/// An outcome is recorded under the key of the request, whatever else the request carries, and
/// nowhere where it has none.
pub proof fn law_outcome_goes_under_the_key(
    store: ConversationStore,
    request: RequestContinuationView,
    class: StateClass,
    continuation: ContinuationView,
    now: u64,
)
    ensures
        request.cache_key is None ==> persist_view(store, request, class, continuation, now)
            == StepView::Finished(Ok::<(), CacheErrorView>(())),
        request.cache_key is Some ==> persist_view(store, request, class, continuation, now)
            == store.record_view(request.cache_key->0, class, continuation, now),
{
}

} // verus!
