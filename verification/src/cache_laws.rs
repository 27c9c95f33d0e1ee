//! What holds of the conversation cache as a whole, over all the steps of its changes.
use vstd::prelude::*;

use crate::a2a::{ContinuationView, StateClass};
use crate::cache::{
    live_view, CacheErrorView, ConversationStore, EntryState, EntryView, OutcomeView, ReadingView,
    StepView, StoreModeView,
};

verus! {

/// A reply of the store: the one half answers a read, the other a write or a deletion.
pub struct ReplyView {
    pub reading: ReadingView,
    pub outcome: OutcomeView,
}

/// The step after a reply.
pub open spec fn next_step(step: StepView, reply: ReplyView) -> StepView {
    match step {
        StepView::Read(waiting) => waiting.after(reply.reading),
        StepView::Write(waiting) => waiting.after(reply.outcome),
        StepView::Delete(_) => StepView::Finished(reply.outcome),
        StepView::Finished(_) => step,
    }
}

/// The step after a row of replies.
pub open spec fn later_step(step: StepView, replies: Seq<ReplyView>) -> StepView
    decreases replies.len(),
{
    if replies.len() == 0 {
        step
    } else {
        later_step(next_step(step, replies[0]), replies.skip(1))
    }
}

/// How many requests a step may still lead to, its own among them.
pub open spec fn requests_left(step: StepView) -> nat {
    match step {
        StepView::Read(waiting) => 2 * waiting.attempts,
        StepView::Write(waiting) => 2 * waiting.attempts + 1,
        StepView::Delete(_) => 1,
        StepView::Finished(_) => 0,
    }
}

/// Whether a step can occur: a read has a write to follow it.
pub open spec fn can_occur(step: StepView) -> bool {
    match step {
        StepView::Read(waiting) => waiting.attempts > 0,
        _ => true,
    }
}

/// A step that can occur leads to one that can, and the end is nearer.
proof fn lemma_next_step(step: StepView, reply: ReplyView)
    requires
        can_occur(step),
    ensures
        can_occur(next_step(step, reply)),
        step !is Finished ==> requests_left(next_step(step, reply)) < requests_left(step),
{
}

/// A finished change stays finished.
proof fn lemma_finished_stays(step: StepView, replies: Seq<ReplyView>)
    requires
        step is Finished,
    ensures
        later_step(step, replies) == step,
    decreases replies.len(),
{
    if replies.len() > 0 {
        lemma_finished_stays(step, replies.skip(1));
    }
}

/// The end comes within the requests that are left.
proof fn lemma_ends(step: StepView, replies: Seq<ReplyView>)
    requires
        can_occur(step),
        replies.len() >= requests_left(step),
    ensures
        later_step(step, replies) is Finished,
    decreases replies.len(),
{
    if step is Finished {
        lemma_finished_stays(step, replies);
    } else {
        lemma_next_step(step, replies[0]);
        lemma_ends(next_step(step, replies[0]), replies.skip(1));
    }
}

/// Recording an outcome ends after at most seven requests, whatever the store replies and whoever
/// else writes to it.
pub proof fn law_recording_ends(
    store: ConversationStore,
    key: Seq<char>,
    class: StateClass,
    continuation: ContinuationView,
    now: u64,
    replies: Seq<ReplyView>,
)
    requires
        replies.len() >= 7,
    ensures
        later_step(store.record_view(key, class, continuation, now), replies) is Finished,
{
    lemma_ends(store.record_view(key, class, continuation, now), replies);
}

/// An outcome that says neither that the conversation goes on nor that it is over makes no request.
pub proof fn law_unknown_outcome_makes_no_request(
    store: ConversationStore,
    key: Seq<char>,
    continuation: ContinuationView,
    now: u64,
)
    ensures
        store.record_view(key, StateClass::Unknown, continuation, now) == StepView::Finished(
            Ok::<(), CacheErrorView>(()),
        ),
{
}

/// The key that a step's request names.
pub open spec fn key_asked(step: StepView) -> Option<Seq<char>> {
    match step {
        StepView::Read(waiting) => Some(waiting.key),
        StepView::Write(waiting) => Some(waiting.key),
        StepView::Delete(key) => Some(key),
        StepView::Finished(_) => None,
    }
}

/// What stays the same along the steps of a change: its key, what it writes, and that nothing but
/// its first step deletes.
proof fn lemma_steps_keep(step: StepView, replies: Seq<ReplyView>)
    ensures
        later_step(step, replies) is Finished || key_asked(later_step(step, replies)) == key_asked(
            step,
        ),
        step !is Delete ==> later_step(step, replies) !is Delete,
    decreases replies.len(),
{
    if replies.len() > 0 {
        let next = next_step(step, replies[0]);
        if next is Finished {
            lemma_finished_stays(next, replies.skip(1));
        } else {
            lemma_steps_keep(next, replies.skip(1));
        }
    }
}

/// Recording an outcome asks for nothing but the conversation's own key.
pub proof fn law_only_the_own_key_is_touched(
    store: ConversationStore,
    key: Seq<char>,
    class: StateClass,
    continuation: ContinuationView,
    now: u64,
    replies: Seq<ReplyView>,
)
    ensures
        match key_asked(later_step(store.record_view(key, class, continuation, now), replies)) {
            Some(asked) => asked == key,
            None => true,
        },
{
    let start = store.record_view(key, class, continuation, now);
    if start is Finished {
        lemma_finished_stays(start, replies);
    }
    lemma_steps_keep(start, replies);
}

/// A shared store is never deleted from, whatever it replies.
pub proof fn law_shared_store_is_never_deleted_from(
    store: ConversationStore,
    key: Seq<char>,
    class: StateClass,
    continuation: ContinuationView,
    now: u64,
    replies: Seq<ReplyView>,
)
    requires
        store.is_distributed(),
    ensures
        later_step(store.record_view(key, class, continuation, now), replies) !is Delete,
{
    lemma_steps_keep(store.record_view(key, class, continuation, now), replies);
}

/// Whether a read is replied to with a conflict, which is a write's reply.
pub open spec fn is_conflicting_read(reply: ReplyView) -> bool {
    match reply.reading {
        Err(CacheErrorView::CasConflict) => true,
        _ => false,
    }
}

/// A conflict is reported only when every write that was allowed has met one.
proof fn lemma_conflict_takes_all_requests(step: StepView, replies: Seq<ReplyView>)
    requires
        can_occur(step),
        step is Read || step is Write,
        forall|i: int| 0 <= i < replies.len() ==> !is_conflicting_read(#[trigger] replies[i]),
        later_step(step, replies) == StepView::Finished(
            Err::<(), CacheErrorView>(CacheErrorView::CasConflict),
        ),
    ensures
        replies.len() >= requests_left(step),
    decreases replies.len(),
{
    if replies.len() > 0 {
        let next = next_step(step, replies[0]);
        let rest = replies.skip(1);
        assert forall|i: int| 0 <= i < rest.len() implies !is_conflicting_read(
            #[trigger] rest[i],
        ) by {
            assert(rest[i] == replies[i + 1]);
        }
        if next is Finished {
            lemma_finished_stays(next, rest);
        } else {
            lemma_conflict_takes_all_requests(next, rest);
        }
    }
}

/// Keeping a conversation gives up on a conflict only after four writes and the three reads between
/// them: as long as it loses no more than three races, it succeeds or reports what else went wrong.
/// Giving one up in a shared store has three reads and three writes.
pub proof fn law_conflict_comes_only_after_all_attempts(
    store: ConversationStore,
    key: Seq<char>,
    class: StateClass,
    continuation: ContinuationView,
    now: u64,
    replies: Seq<ReplyView>,
)
    requires
        class == StateClass::Continuable || store.is_distributed(),
        forall|i: int| 0 <= i < replies.len() ==> !is_conflicting_read(#[trigger] replies[i]),
        later_step(store.record_view(key, class, continuation, now), replies)
            == StepView::Finished(Err::<(), CacheErrorView>(CacheErrorView::CasConflict)),
    ensures
        class == StateClass::Continuable ==> replies.len() >= 7,
        class == StateClass::Terminal ==> replies.len() >= 6,
        class != StateClass::Unknown,
{
    let start = store.record_view(key, class, continuation, now);
    if class == StateClass::Unknown {
        lemma_finished_stays(start, replies);
    } else {
        lemma_conflict_takes_all_requests(start, replies);
    }
}

/// A store: under each key an entry and its version.
pub type Backend = Map<Seq<char>, (EntryView, Seq<char>)>;

/// What a read of `key` finds in a store.
pub open spec fn found(backend: Backend, key: Seq<char>) -> ReadingView {
    Ok(
        if backend.dom().contains(key) {
            Some(backend[key])
        } else {
            None
        },
    )
}

/// Whether a write takes place.
pub open spec fn admits(backend: Backend, key: Seq<char>, mode: StoreModeView) -> bool {
    match mode {
        StoreModeView::Absent => !backend.dom().contains(key),
        StoreModeView::Cas(version) => backend.dom().contains(key) && backend[key].1 == version,
    }
}

/// What the store replies to a step's request.
pub open spec fn reply_of(backend: Backend, step: StepView) -> ReplyView {
    ReplyView {
        reading: match step {
            StepView::Read(waiting) => found(backend, waiting.key),
            _ => Ok(None),
        },
        outcome: match step {
            StepView::Write(waiting) => if admits(backend, waiting.key, waiting.mode) {
                Ok(())
            } else {
                Err(CacheErrorView::CasConflict)
            },
            _ => Ok(()),
        },
    }
}

/// The store after a step's request; an entry that is written gets the version `fresh`.
pub open spec fn backend_after(backend: Backend, step: StepView, fresh: Seq<char>) -> Backend {
    match step {
        StepView::Write(waiting) => if admits(backend, waiting.key, waiting.mode) {
            backend.insert(waiting.key, (waiting.entry, fresh))
        } else {
            backend
        },
        StepView::Delete(key) => backend.remove(key),
        _ => backend,
    }
}

/// Carries out a change on a store that nobody else writes to meanwhile: how it comes out, and the
/// store that it leaves.
pub open spec fn carried_out(step: StepView, backend: Backend, fresh: Seq<char>) -> (
    OutcomeView,
    Backend,
)
    decreases requests_left(step),
    when can_occur(step)
{
    match step {
        StepView::Finished(outcome) => (outcome, backend),
        _ => carried_out(
            next_step(step, reply_of(backend, step)),
            backend_after(backend, step, fresh),
            fresh,
        ),
    }
}

/// What is kept of a conversation that goes on is there on its next turn, within its time to live.
/// It does not matter whether the conversation was kept before.
pub proof fn law_kept_conversation_is_resumed(
    store: ConversationStore,
    backend: Backend,
    key: Seq<char>,
    continuation: ContinuationView,
    now: u64,
    later: u64,
    fresh: Seq<char>,
)
    requires
        now + store.ttl() <= u64::MAX,
        backend.dom().contains(key) ==> backend[key].0.state == EntryState::Continuable,
        later < now + store.ttl(),
    ensures
        ({
            let (outcome, after) = carried_out(
                store.record_view(key, StateClass::Continuable, continuation, now),
                backend,
                fresh,
            );
            &&& outcome == Ok::<(), CacheErrorView>(())
            &&& live_view(found(after, key), later) == Some(continuation)
        }),
{
    reveal_with_fuel(carried_out, 4);
}

/// A conversation that is over is not resumed, at no time, in neither kind of store.
pub proof fn law_finished_conversation_is_not_resumed(
    store: ConversationStore,
    backend: Backend,
    key: Seq<char>,
    continuation: ContinuationView,
    now: u64,
    later: u64,
    fresh: Seq<char>,
)
    ensures
        ({
            let (outcome, after) = carried_out(
                store.record_view(key, StateClass::Terminal, continuation, now),
                backend,
                fresh,
            );
            &&& outcome == Ok::<(), CacheErrorView>(())
            &&& live_view(found(after, key), later) is None
        }),
{
    reveal_with_fuel(carried_out, 3);
}

/// A tombstone stays: no outcome that is recorded brings its conversation back.
pub proof fn law_tombstone_stays(
    store: ConversationStore,
    backend: Backend,
    key: Seq<char>,
    class: StateClass,
    continuation: ContinuationView,
    now: u64,
    fresh: Seq<char>,
)
    requires
        store.is_distributed() || class == StateClass::Continuable,
        backend.dom().contains(key),
        backend[key].0.state == EntryState::Terminal,
    ensures
        carried_out(store.record_view(key, class, continuation, now), backend, fresh) == (
            Ok::<(), CacheErrorView>(()),
            backend,
        ),
{
    reveal_with_fuel(carried_out, 4);
}

/// Whether no entry of a store is a tombstone.
pub open spec fn holds_no_tombstone(backend: Backend) -> bool {
    forall|key: Seq<char>|
        #![trigger backend[key]]
        backend.dom().contains(key) ==> backend[key].0.state == EntryState::Continuable
}

/// A local store without a tombstone gets none: a conversation that is over is deleted there.
pub proof fn law_local_store_gets_no_tombstone(
    store: ConversationStore,
    backend: Backend,
    key: Seq<char>,
    class: StateClass,
    continuation: ContinuationView,
    now: u64,
    fresh: Seq<char>,
)
    requires
        !store.is_distributed(),
        holds_no_tombstone(backend),
    ensures
        holds_no_tombstone(
            carried_out(store.record_view(key, class, continuation, now), backend, fresh).1,
        ),
{
    reveal_with_fuel(carried_out, 4);
    let after = carried_out(store.record_view(key, class, continuation, now), backend, fresh).1;
    assert forall|other: Seq<char>|
        #![trigger after[other]]
        after.dom().contains(other) implies after[other].0.state == EntryState::Continuable by {
        if other != key {
            law_other_conversations_are_kept(
                store,
                backend,
                key,
                other,
                class,
                continuation,
                now,
                fresh,
            );
            assert(found(after, other) == found(backend, other));
        }
        assert(backend.dom().contains(other) ==> backend[other].0.state == EntryState::Continuable);
    }
}

/// An outcome that was recorded, and the version that the entry got.
pub struct RecordView {
    pub key: Seq<char>,
    pub class: StateClass,
    pub continuation: ContinuationView,
    pub now: u64,
    pub fresh: Seq<char>,
}

/// The store that a row of records leaves, one after the other, where there was nothing before.
pub open spec fn built_up(store: ConversationStore, records: Seq<RecordView>) -> Backend
    decreases records.len(),
{
    if records.len() == 0 {
        Map::empty()
    } else {
        let last = records.last();
        carried_out(
            store.record_view(last.key, last.class, last.continuation, last.now),
            built_up(store, records.drop_last()),
            last.fresh,
        ).1
    }
}

/// A local store that has only seen what was recorded in it holds no tombstone.
pub proof fn law_built_up_local_store_holds_no_tombstone(
    store: ConversationStore,
    records: Seq<RecordView>,
)
    requires
        !store.is_distributed(),
    ensures
        holds_no_tombstone(built_up(store, records)),
    decreases records.len(),
{
    if records.len() > 0 {
        let last = records.last();
        let before = records.drop_last();
        law_built_up_local_store_holds_no_tombstone(store, before);
        law_local_store_gets_no_tombstone(
            store,
            built_up(store, before),
            last.key,
            last.class,
            last.continuation,
            last.now,
            last.fresh,
        );
    }
}

/// What another key holds is not changed.
pub proof fn law_other_conversations_are_kept(
    store: ConversationStore,
    backend: Backend,
    key: Seq<char>,
    other: Seq<char>,
    class: StateClass,
    continuation: ContinuationView,
    now: u64,
    fresh: Seq<char>,
)
    requires
        other != key,
    ensures
        found(
            carried_out(store.record_view(key, class, continuation, now), backend, fresh).1,
            other,
        ) == found(backend, other),
{
    reveal_with_fuel(carried_out, 4);
}

/// In a local store nothing is left of a conversation that is over; in a shared one its entry stays
/// where it was.
pub proof fn law_what_is_left_of_a_finished_conversation(
    store: ConversationStore,
    backend: Backend,
    key: Seq<char>,
    continuation: ContinuationView,
    now: u64,
    fresh: Seq<char>,
)
    ensures
        ({
            let after = carried_out(
                store.record_view(key, StateClass::Terminal, continuation, now),
                backend,
                fresh,
            ).1;
            after.dom().contains(key) <==> store.is_distributed() && backend.dom().contains(key)
        }),
{
    reveal_with_fuel(carried_out, 3);
}

/// An entry gives nothing from its expiry on.
pub proof fn law_expired_entry_is_not_resumed(
    entry: EntryView,
    version: Seq<char>,
    later: u64,
)
    requires
        later >= entry.expires_at_millis,
    ensures
        live_view(Ok(Some((entry, version))), later) is None,
{
}

/// Whether every version in a store names the entry that `named` gives for it.
pub open spec fn versions_name_entries(
    backend: Backend,
    named: spec_fn(Seq<char>) -> EntryView,
) -> bool {
    forall|key: Seq<char>|
        #![trigger backend[key]]
        backend.dom().contains(key) ==> backend[key].0 == named(backend[key].1)
}

/// Whether a reply to a read hands out the entry that its version names.
pub open spec fn tells_what_is_named(
    reply: ReplyView,
    named: spec_fn(Seq<char>) -> EntryView,
) -> bool {
    match reply.reading {
        Ok(Some((entry, version))) => entry == named(version),
        _ => true,
    }
}

/// Whether a step replaces no entry but one of a conversation that can be resumed.
pub open spec fn replaces_live_entries_only(
    step: StepView,
    named: spec_fn(Seq<char>) -> EntryView,
) -> bool {
    match step {
        StepView::Write(waiting) => match waiting.mode {
            StoreModeView::Cas(version) => named(version).state == EntryState::Continuable,
            StoreModeView::Absent => true,
        },
        StepView::Delete(_) => false,
        _ => true,
    }
}

/// Also where others write to the store between the requests, no request overwrites a tombstone.
/// This counts on what a version is: it names one entry. The replies up to the request come from
/// stores of which that is true, and may else be any.
pub proof fn law_tombstone_survives_races(
    store: ConversationStore,
    key: Seq<char>,
    class: StateClass,
    continuation: ContinuationView,
    now: u64,
    replies: Seq<ReplyView>,
    backend: Backend,
    named: spec_fn(Seq<char>) -> EntryView,
    fresh: Seq<char>,
)
    requires
        store.is_distributed() || class == StateClass::Continuable,
        forall|i: int| 0 <= i < replies.len() ==> tells_what_is_named(#[trigger] replies[i], named),
        versions_name_entries(backend, named),
        backend.dom().contains(key),
        backend[key].0.state == EntryState::Terminal,
    ensures
        backend_after(
            backend,
            later_step(store.record_view(key, class, continuation, now), replies),
            fresh,
        ) == backend,
{
    let start = store.record_view(key, class, continuation, now);
    lemma_steps_replace_live_entries_only(start, replies, named);
    law_only_the_own_key_is_touched(store, key, class, continuation, now, replies);
}

/// The steps of a change replace live entries only, where the first does.
proof fn lemma_steps_replace_live_entries_only(
    step: StepView,
    replies: Seq<ReplyView>,
    named: spec_fn(Seq<char>) -> EntryView,
)
    requires
        replaces_live_entries_only(step, named),
        forall|i: int| 0 <= i < replies.len() ==> tells_what_is_named(#[trigger] replies[i], named),
    ensures
        replaces_live_entries_only(later_step(step, replies), named),
    decreases replies.len(),
{
    if replies.len() > 0 {
        let rest = replies.skip(1);
        assert forall|i: int| 0 <= i < rest.len() implies tells_what_is_named(
            #[trigger] rest[i],
            named,
        ) by {
            assert(rest[i] == replies[i + 1]);
        }
        lemma_steps_replace_live_entries_only(next_step(step, replies[0]), rest, named);
    }
}

} // verus!
