//! The record that a store keeps of the actions it has dispatched, and what
//! holds of it.
//!
//! The record exists for specifications only. It is a flat sequence, one
//! entry per dispatched action, in the order of dispatch.

use crate::action::action_meta::{ActionMeta, RecursionDepth};
use crate::action::enabling_condition::EnablingCondition;
use crate::instant::Instant;
use crate::reducer::Reducer;
use crate::store::{next_id, ClockAnchorView};
use crate::timestamp::Timestamp;
use vstd::prelude::*;

verus! {

/// What the store keeps on record of a dispatched action.
pub struct Record<State, Action> {
    /// The metadata that the action got when it was dispatched.
    pub meta: ActionMeta,
    /// The action.
    pub action: Action,
    /// Where the action came from: `None` for one that was dispatched
    /// directly, and for one that a reducer had queued its place in that
    /// reducer's queue.
    pub queued: Option<nat>,
    /// The actions that the reducer queued while it processed this action,
    /// in the order in which it queued them.
    pub enqueued: Seq<Action>,
    /// The state as the reducer left it.
    pub after: State,
    /// The reading of the monotonic clock that the service gave when the
    /// action was dispatched.
    pub reading: Instant,
}

/// The id that was assigned last: that of the last record, or `first` where
/// nothing is on record.
pub open spec fn last_id<State, Action>(history: Seq<Record<State, Action>>, first: u64) -> u64 {
    if history.len() == 0 {
        first
    } else {
        history.last().meta@.id
    }
}

/// The state behind the records: as the last reducer left it, or `initial`
/// where nothing is on record.
pub open spec fn last_state<State, Action>(
    history: Seq<Record<State, Action>>,
    initial: State,
) -> State {
    if history.len() == 0 {
        initial
    } else {
        history.last().after
    }
}

/// Each record names as its predecessor the id of the record before it (the
/// first one names `first`), and has a later id than its predecessor: the
/// wall-clock time of its clock reading, as `anchor` gives it, or the id that
/// follows its predecessor directly where the clock has not gone beyond the
/// predecessor.
#[verifier::opaque]
pub open spec fn chained<State, Action>(
    history: Seq<Record<State, Action>>,
    first: u64,
    anchor: ClockAnchorView,
) -> bool {
    forall|i: int|
        0 <= i < history.len() ==> {
            &&& (#[trigger] history[i]).meta@.prev == last_id(history.take(i), first)
            &&& history[i].meta@.prev < history[i].meta@.id
            &&& history[i].meta@.id == next_id(
                history[i].meta@.prev,
                anchor.time_at(history[i].reading@),
            )
        }
}

/// Each record holds what the reducer made of its action: the reducer found
/// the state as the record before had left it (the first one found
/// `initial`), and left the state and the queued actions that are on record.
#[verifier::opaque]
pub open spec fn reduced<State, Action: EnablingCondition<State>, R: Reducer<State, Action>>(
    history: Seq<Record<State, Action>>,
    initial: State,
    reducer: R,
) -> bool {
    forall|i: int|
        0 <= i < history.len() ==> reducer.reduces(
            last_state(history.take(i), initial),
            (#[trigger] history[i]).meta.with_action(history[i].action),
            history[i].after,
            history[i].enqueued,
        )
}

/// `longer` starts with the records of `shorter`.
#[verifier::opaque]
pub open spec fn extends<State, Action>(
    longer: Seq<Record<State, Action>>,
    shorter: Seq<Record<State, Action>>,
) -> bool {
    &&& shorter.len() <= longer.len()
    &&& forall|i: int| 0 <= i < shorter.len() ==> #[trigger] longer[i] == shorter[i]
}

/// The records of `history` from `start` on are those of actions that were
/// dispatched at `depth` or deeper, and those at `depth` itself were
/// dispatched directly, not taken from a queue.
#[verifier::opaque]
pub open spec fn direct_run<State, Action>(
    history: Seq<Record<State, Action>>,
    start: int,
    depth: RecursionDepth,
) -> bool {
    forall|i: int|
        start <= i < history.len() ==> {
            &&& (#[trigger] history[i]).meta@.depth >= depth
            &&& history[i].meta@.depth == depth ==> history[i].queued is None
        }
}

/// The record is that of an action that was taken from a queue and dispatched
/// at `child_depth`.
pub open spec fn is_child<State, Action>(record: Record<State, Action>, child_depth: int) -> bool {
    record.meta@.depth == child_depth && record.queued is Some
}

/// An action whose turn comes when `history` holds `at` records, in a store
/// at `depth`, can be dispatched: it is enabled for the state and the last id
/// as they stand behind the record before `at`, and neither the ids nor the
/// levels of recursion are used up.
pub open spec fn runnable<State, Action: EnablingCondition<State>>(
    action: Action,
    history: Seq<Record<State, Action>>,
    at: int,
    depth: int,
) -> bool {
    &&& 0 < at <= history.len()
    &&& action.enabled(&history[at - 1].after, Timestamp::new(history[at - 1].meta@.id))
    &&& history[at - 1].meta@.id < u64::MAX
    &&& depth < u32::MAX
}

/// The turn of the action at the place `slot` of a queue came when `history`
/// held `at` records, if that action was not dispatched: all actions that
/// were taken from the queue before `at` stood at earlier places, and `at` is
/// the end of the records or holds an action from a later place.
pub open spec fn turn_at<State, Action>(
    history: Seq<Record<State, Action>>,
    start: int,
    child_depth: int,
    slot: int,
    at: int,
) -> bool {
    &&& start <= at <= history.len()
    &&& at < history.len() ==> is_child(history[at], child_depth) && history[at].queued->0 > slot
    &&& forall|i: int|
        start <= i < at && is_child(#[trigger] history[i], child_depth) ==> history[i].queued->0
            < slot
}

/// The records of `history` from `start` on are what the processing of one
/// action has brought about so far, where that action was dispatched one
/// level above `child_depth`, its reducer queued `enqueued`, and the turn of
/// the first `upto` actions of the queue has come.
///
/// - All of them were dispatched at `child_depth` or deeper.
/// - One at `child_depth` that was taken from the queue holds the action at
///   its place in `enqueued`, a place before `upto`, and that action could be
///   dispatched when its turn came.
/// - Among those at `child_depth`, once one was taken from the queue all
///   later ones were too, from later places: the actions that the effects
///   dispatched directly come before every action that the reducer queued,
///   and the queued ones come in the order in which they were queued.
/// - An action at a place before `upto` that is not among them could not be
///   dispatched when its turn came.
#[verifier::opaque]
pub open spec fn drained<State, Action: EnablingCondition<State>>(
    history: Seq<Record<State, Action>>,
    start: int,
    child_depth: int,
    enqueued: Seq<Action>,
    upto: int,
) -> bool {
    &&& forall|i: int|
        start <= i < history.len() ==> (#[trigger] history[i]).meta@.depth >= child_depth
    &&& forall|i: int|
        start <= i < history.len() && is_child(#[trigger] history[i], child_depth) ==> {
            &&& history[i].queued->0 < upto
            &&& history[i].queued->0 < enqueued.len()
            &&& history[i].action == enqueued[history[i].queued->0 as int]
            &&& runnable(history[i].action, history, i, child_depth)
        }
    &&& forall|i: int, j: int|
        start <= i < j < history.len() && (#[trigger] history[i]).meta@.depth == child_depth
            && (#[trigger] history[j]).meta@.depth == child_depth && history[i].queued is Some
            ==> {
            &&& history[j].queued is Some
            &&& history[i].queued->0 < history[j].queued->0
        }
    &&& forall|slot: int, at: int|
        0 <= slot < upto && slot < enqueued.len() && #[trigger] turn_at(
            history,
            start,
            child_depth,
            slot,
            at,
        ) ==> !runnable(enqueued[slot], history, at, child_depth)
}

/// The records of `history` from `start` on are what the processing of one
/// action brought about, where that action was dispatched one level above
/// `child_depth` and its reducer queued `enqueued`: they are [`drained`],
/// with the turn of every queued action come and gone.
pub open spec fn cascade<State, Action: EnablingCondition<State>>(
    history: Seq<Record<State, Action>>,
    start: int,
    child_depth: int,
    enqueued: Seq<Action>,
) -> bool {
    drained(history, start, child_depth, enqueued, enqueued.len() as int)
}

/// The record at `at` is that of an action dispatched at `depth` that came
/// from `origin`, and all records behind it are what its processing brought
/// about.
pub open spec fn frame<State, Action: EnablingCondition<State>>(
    history: Seq<Record<State, Action>>,
    at: int,
    depth: RecursionDepth,
    origin: Option<nat>,
) -> bool {
    &&& 0 <= at < history.len()
    &&& history[at].meta@.depth == depth
    &&& history[at].queued == origin
    &&& cascade(history, at + 1, depth + 1, history[at].enqueued)
}

/// The place of the first record from `from` on that is not deeper than
/// `depth`, or the end of the records.
pub open spec fn next_not_deeper<State, Action>(
    history: Seq<Record<State, Action>>,
    from: int,
    depth: int,
) -> int
    decreases history.len() - from,
{
    if from < 0 || from >= history.len() {
        history.len() as int
    } else if history[from].meta@.depth <= depth {
        from
    } else {
        next_not_deeper(history, from + 1, depth)
    }
}

/// Where the records end that the processing of the action at `at` brought
/// about: at the first record behind it that was not dispatched at a deeper
/// level, or at the end of the records.
pub open spec fn span_end<State, Action>(history: Seq<Record<State, Action>>, at: int) -> int {
    next_not_deeper(history, at + 1, history[at].meta@.depth as int)
}

/// Every action whose processing is over has all that it brought about on
/// record behind it, in a store at `depth`: the records from each record to
/// the end of its span are a [`frame`], unless the action is still being
/// processed (its span reaches the end of the records and it was dispatched
/// above `depth`).
#[verifier::opaque]
pub open spec fn framed<State, Action: EnablingCondition<State>>(
    history: Seq<Record<State, Action>>,
    depth: RecursionDepth,
) -> bool {
    forall|i: int|
        0 <= i < history.len() && (span_end(history, i) < history.len() || (
        #[trigger] history[i]).meta@.depth >= depth) ==> cascade(
            history.take(span_end(history, i)),
            i + 1,
            history[i].meta@.depth + 1,
            history[i].enqueued,
        )
}

/// Where `longest` starts with `longer` and that with `shorter`, `longest`
/// starts with `shorter`.
pub proof fn lemma_extends_transitive<State, Action>(
    longest: Seq<Record<State, Action>>,
    longer: Seq<Record<State, Action>>,
    shorter: Seq<Record<State, Action>>,
)
    requires
        extends(longest, longer),
        extends(longer, shorter),
    ensures
        extends(longest, shorter),
{
    reveal(extends);
    assert forall|i: int| 0 <= i < shorter.len() implies #[trigger] longest[i] == shorter[i] by {
        assert(longer[i] == shorter[i]);
    }
}

/// A sequence with one more record starts with the sequence.
pub proof fn lemma_extends_push<State, Action>(
    history: Seq<Record<State, Action>>,
    record: Record<State, Action>,
)
    ensures
        extends(history.push(record), history),
{
    reveal(extends);
}

/// What a sequence starts with is no longer than the sequence.
pub proof fn lemma_extends_len<State, Action>(
    longer: Seq<Record<State, Action>>,
    shorter: Seq<Record<State, Action>>,
)
    requires
        extends(longer, shorter),
    ensures
        shorter.len() <= longer.len(),
{
    reveal(extends);
}

/// What a sequence starts with it holds, record for record.
pub proof fn lemma_extends_index<State, Action>(
    longer: Seq<Record<State, Action>>,
    shorter: Seq<Record<State, Action>>,
    i: int,
)
    requires
        extends(longer, shorter),
        0 <= i < shorter.len(),
    ensures
        shorter.len() <= longer.len(),
        longer[i] == shorter[i],
{
    reveal(extends);
}

/// No records are chained.
pub proof fn lemma_chained_empty<State, Action>(first: u64, anchor: ClockAnchorView)
    ensures
        chained(Seq::<Record<State, Action>>::empty(), first, anchor),
{
    reveal(chained);
}

/// A record that names the last id as its predecessor and has a later id
/// itself keeps the records chained.
pub proof fn lemma_chained_push<State, Action>(
    history: Seq<Record<State, Action>>,
    first: u64,
    anchor: ClockAnchorView,
    record: Record<State, Action>,
)
    requires
        chained(history, first, anchor),
        record.meta@.prev == last_id(history, first),
        record.meta@.prev < record.meta@.id,
        record.meta@.id == next_id(record.meta@.prev, anchor.time_at(record.reading@)),
    ensures
        chained(history.push(record), first, anchor),
{
    reveal(chained);
    let longer = history.push(record);
    assert forall|i: int| 0 <= i < longer.len() implies {
        &&& (#[trigger] longer[i]).meta@.prev == last_id(longer.take(i), first)
        &&& longer[i].meta@.prev < longer[i].meta@.id
        &&& longer[i].meta@.id == next_id(
            longer[i].meta@.prev,
            anchor.time_at(longer[i].reading@),
        )
    } by {
        if i < history.len() {
            assert(longer[i] == history[i]);
            assert(longer.take(i) =~= history.take(i));
        } else {
            assert(longer.take(i) =~= history);
        }
    }
}

/// No records are reduced.
pub proof fn lemma_reduced_empty<State, Action: EnablingCondition<State>, R: Reducer<State, Action>>(
    initial: State,
    reducer: R,
)
    ensures
        reduced(Seq::<Record<State, Action>>::empty(), initial, reducer),
{
    reveal(reduced);
}

/// A record of what the reducer made of an action in the last state keeps the
/// records reduced.
pub proof fn lemma_reduced_push<State, Action: EnablingCondition<State>, R: Reducer<State, Action>>(
    history: Seq<Record<State, Action>>,
    initial: State,
    reducer: R,
    record: Record<State, Action>,
)
    requires
        reduced(history, initial, reducer),
        reducer.reduces(
            last_state(history, initial),
            record.meta.with_action(record.action),
            record.after,
            record.enqueued,
        ),
    ensures
        reduced(history.push(record), initial, reducer),
{
    reveal(reduced);
    let longer = history.push(record);
    assert forall|i: int| 0 <= i < longer.len() implies reducer.reduces(
        last_state(longer.take(i), initial),
        (#[trigger] longer[i]).meta.with_action(longer[i].action),
        longer[i].after,
        longer[i].enqueued,
    ) by {
        if i < history.len() {
            assert(longer[i] == history[i]);
            assert(longer.take(i) =~= history.take(i));
        } else {
            assert(longer.take(i) =~= history);
        }
    }
}

/// The ids of chained records grow strictly: a record that was dispatched
/// later has a later id, and every id is later than `first`.
pub proof fn lemma_ids_increase<State, Action>(
    history: Seq<Record<State, Action>>,
    first: u64,
    anchor: ClockAnchorView,
    i: int,
    j: int,
)
    requires
        chained(history, first, anchor),
        0 <= i < j < history.len(),
    ensures
        first < history[i].meta@.id,
        history[i].meta@.id < history[j].meta@.id,
    decreases j,
{
    reveal(chained);
    assert(history[j].meta@.prev == last_id(history.take(j), first));
    assert(history.take(j).last() == history[j - 1]);
    if i > 0 {
        assert(history.take(i).last() == history[i - 1]);
    }
    if i < j - 1 {
        lemma_ids_increase(history, first, anchor, i, j - 1);
    } else {
        if i > 0 {
            lemma_ids_increase(history, first, anchor, i - 1, i);
        } else {
            assert(history.take(0).len() == 0);
        }
    }
}

/// Every id of chained records is later than `first` and no later than the
/// last one.
pub proof fn lemma_id_bounds<State, Action>(
    history: Seq<Record<State, Action>>,
    first: u64,
    anchor: ClockAnchorView,
    i: int,
)
    requires
        chained(history, first, anchor),
        0 <= i < history.len(),
    ensures
        first < history[i].meta@.id <= last_id(history, first),
{
    reveal(chained);
    if i < history.len() - 1 {
        lemma_ids_increase(history, first, anchor, i, history.len() - 1);
    } else if i > 0 {
        lemma_ids_increase(history, first, anchor, i - 1, i);
    } else {
        assert(history.take(0).len() == 0);
    }
}

/// Following the predecessors leads back through the records in the reverse
/// order of dispatch: the predecessor that a record names is the id of the
/// record just before it, and of no other record.
pub proof fn lemma_causal_chain<State, Action>(
    history: Seq<Record<State, Action>>,
    first: u64,
    anchor: ClockAnchorView,
    i: int,
    j: int,
)
    requires
        chained(history, first, anchor),
        0 < i < history.len(),
        0 <= j < history.len(),
    ensures
        history[i].meta@.prev == history[i - 1].meta@.id,
        history[j].meta@.id == history[i].meta@.prev <==> j == i - 1,
        history[0].meta@.prev == first,
{
    assert(history[i].meta@.prev == history[i - 1].meta@.id) by {
        reveal(chained);
        assert(history.take(i).last() == history[i - 1]);
    }
    assert(history[0].meta@.prev == first) by {
        reveal(chained);
        assert(history.take(0).len() == 0);
    }
    if j < i - 1 {
        lemma_ids_increase(history, first, anchor, j, i - 1);
    } else if j > i - 1 {
        lemma_ids_increase(history, first, anchor, i - 1, j);
    }
}

/// Within the records of one action's processing, every record behind the
/// action's own is that of an action dispatched at a deeper level.
pub proof fn lemma_frame_depths<State, Action: EnablingCondition<State>>(
    history: Seq<Record<State, Action>>,
    at: int,
    depth: RecursionDepth,
    origin: Option<nat>,
    i: int,
)
    requires
        frame(history, at, depth, origin),
        at < i < history.len(),
    ensures
        history[at].meta@.depth == depth,
        history[i].meta@.depth > depth,
{
    reveal(drained);
}

/// Within the records of one action's processing, what the action's effects
/// dispatched directly comes before everything that its reducer had queued:
/// of two actions one level below it, the earlier one was dispatched directly
/// if the later one was.
pub proof fn lemma_direct_before_queued<State, Action: EnablingCondition<State>>(
    history: Seq<Record<State, Action>>,
    at: int,
    depth: RecursionDepth,
    origin: Option<nat>,
    i: int,
    j: int,
)
    requires
        frame(history, at, depth, origin),
        at < i < j < history.len(),
        history[i].meta@.depth == depth + 1,
        history[j].meta@.depth == depth + 1,
        history[j].queued is None,
    ensures
        history[i].queued is None,
{
    reveal(drained);
}

/// Within the records of one action's processing, the actions that its
/// reducer had queued were dispatched in the order in which they were queued:
/// of two of them, the earlier record holds the action from the earlier
/// place in the queue, and each holds the action that was queued at its
/// place, which was enabled when its turn came.
pub proof fn lemma_queued_in_order<State, Action: EnablingCondition<State>>(
    history: Seq<Record<State, Action>>,
    at: int,
    depth: RecursionDepth,
    origin: Option<nat>,
    i: int,
    j: int,
)
    requires
        frame(history, at, depth, origin),
        at < i < j < history.len(),
        is_child(history[i], depth + 1),
        is_child(history[j], depth + 1),
    ensures
        history[i].queued->0 < history[j].queued->0 < history[at].enqueued.len(),
        history[i].action == history[at].enqueued[history[i].queued->0 as int],
        history[j].action == history[at].enqueued[history[j].queued->0 as int],
        runnable(history[i].action, history, i, depth + 1),
        runnable(history[j].action, history, j, depth + 1),
{
    reveal(drained);
}

/// The place in `history` where the turn of the action at the place `slot` of
/// a queue came, if that action was not dispatched: the first record from
/// `from` on that holds an action from a later place of the queue, or the end
/// of the records.
pub open spec fn turn_of<State, Action>(
    history: Seq<Record<State, Action>>,
    from: int,
    child_depth: int,
    slot: int,
) -> int
    decreases history.len() - from,
{
    if from < 0 || from >= history.len() {
        history.len() as int
    } else if is_child(history[from], child_depth) && history[from].queued->0 > slot {
        from
    } else {
        turn_of(history, from + 1, child_depth, slot)
    }
}

/// The turn of an action that was not dispatched came where [`turn_of`] says.
proof fn lemma_turn_of<State, Action>(
    history: Seq<Record<State, Action>>,
    start: int,
    from: int,
    child_depth: int,
    slot: int,
)
    requires
        0 <= start <= from <= history.len(),
        forall|i: int|
            start <= i < history.len() && is_child(#[trigger] history[i], child_depth)
                ==> history[i].queued->0 != slot,
        forall|i: int|
            start <= i < from && is_child(#[trigger] history[i], child_depth) ==> history[i].queued->0
                < slot,
    ensures
        turn_at(history, start, child_depth, slot, turn_of(history, from, child_depth, slot)),
    decreases history.len() - from,
{
    if from < history.len() && !(is_child(history[from], child_depth) && history[from].queued->0
        > slot) {
        lemma_turn_of(history, start, from + 1, child_depth, slot);
    }
}

/// Within the records of one action's processing, a queued action that was
/// not dispatched could not be: where none of the records holds the action
/// from the place `slot` of the queue, that action was not enabled, or the
/// store was exhausted, when its turn came. So every queued action that
/// could be dispatched at its turn was dispatched, and no other.
pub proof fn lemma_dropped_was_disabled<State, Action: EnablingCondition<State>>(
    history: Seq<Record<State, Action>>,
    at: int,
    depth: RecursionDepth,
    origin: Option<nat>,
    slot: int,
)
    requires
        frame(history, at, depth, origin),
        0 <= slot < history[at].enqueued.len(),
        forall|i: int|
            at < i < history.len() && is_child(#[trigger] history[i], depth + 1)
                ==> history[i].queued->0 != slot,
    ensures
        turn_at(history, at + 1, depth + 1, slot, turn_of(history, at + 1, depth + 1, slot)),
        !runnable(
            history[at].enqueued[slot],
            history,
            turn_of(history, at + 1, depth + 1, slot),
            depth + 1,
        ),
{
    reveal(drained);
    lemma_turn_of(history, at + 1, at + 1, depth + 1, slot);
}

/// The first record that is not deeper lies behind `from`, within the
/// records or at their end; all records before it are deeper, and it is not.
pub proof fn lemma_next_not_deeper<State, Action>(
    history: Seq<Record<State, Action>>,
    from: int,
    depth: int,
)
    requires
        0 <= from <= history.len(),
    ensures
        from <= next_not_deeper(history, from, depth) <= history.len(),
        forall|j: int|
            from <= j < next_not_deeper(history, from, depth) ==> (#[trigger] history[j]).meta@.depth
                > depth,
        next_not_deeper(history, from, depth) < history.len() ==> history[next_not_deeper(
            history,
            from,
            depth,
        )].meta@.depth <= depth,
    decreases history.len() - from,
{
    if from < history.len() && history[from].meta@.depth > depth {
        lemma_next_not_deeper(history, from + 1, depth);
    }
}

/// The first record that is not deeper is found at `end`, where all records
/// from `from` up to `end` are deeper and the one at `end`, if there is one,
/// is not.
pub proof fn lemma_next_not_deeper_is<State, Action>(
    history: Seq<Record<State, Action>>,
    from: int,
    depth: int,
    end: int,
)
    requires
        0 <= from <= end <= history.len(),
        forall|j: int| from <= j < end ==> (#[trigger] history[j]).meta@.depth > depth,
        end < history.len() ==> history[end].meta@.depth <= depth,
    ensures
        next_not_deeper(history, from, depth) == end,
    decreases end - from,
{
    if from < end {
        assert(history[from].meta@.depth > depth);
        lemma_next_not_deeper_is(history, from + 1, depth, end);
    }
}

/// All that an action brings about is on record before any later action
/// that is not deeper than it. So what the reducer of an action queued is
/// dispatched before the actions that were pending when the action was
/// dispatched, which stand on the action's level or above it.
pub proof fn lemma_span_comes_first<State, Action>(
    history: Seq<Record<State, Action>>,
    at: int,
    later: int,
)
    requires
        0 <= at < later < history.len(),
        history[later].meta@.depth <= history[at].meta@.depth,
    ensures
        at < span_end(history, at) <= later,
        forall|i: int|
            at < i < span_end(history, at) ==> (#[trigger] history[i]).meta@.depth
                > history[at].meta@.depth,
{
    lemma_next_not_deeper(history, at + 1, history[at].meta@.depth as int);
}

/// A record that is dispatched at `depth` keeps the records framed, one
/// level deeper: its own processing is under way.
pub(crate) proof fn lemma_framed_push<State, Action: EnablingCondition<State>>(
    history: Seq<Record<State, Action>>,
    depth: RecursionDepth,
    record: Record<State, Action>,
)
    requires
        framed(history, depth),
        record.meta@.depth == depth,
        depth < u32::MAX,
    ensures
        framed(history.push(record), (depth + 1) as RecursionDepth),
{
    reveal(framed);
    let longer = history.push(record);
    let n = history.len() as int;
    assert forall|i: int|
        0 <= i < longer.len() && (span_end(longer, i) < longer.len() || (#[trigger] longer[i]).meta@.depth
            >= depth + 1) implies cascade(
        longer.take(span_end(longer, i)),
        i + 1,
        longer[i].meta@.depth + 1,
        longer[i].enqueued,
    ) by {
        if i < n {
            assert(longer[i] == history[i]);
            let d = history[i].meta@.depth as int;
            let end = span_end(history, i);
            lemma_next_not_deeper(history, i + 1, d);
            assert forall|j: int| i + 1 <= j < end implies (#[trigger] longer[j]).meta@.depth
                > d by {
                assert(longer[j] == history[j]);
            }
            if end < n {
                assert(longer[end] == history[end]);
                lemma_next_not_deeper_is(longer, i + 1, d, end);
                assert(longer.take(end) =~= history.take(end));
            } else if d >= depth {
                lemma_next_not_deeper_is(longer, i + 1, d, n);
                assert(longer.take(n) =~= history.take(n));
            } else {
                assert forall|j: int| i + 1 <= j < n + 1 implies (#[trigger] longer[j]).meta@.depth
                    > d by {
                    if j < n {
                        assert(longer[j] == history[j]);
                    }
                }
                lemma_next_not_deeper_is(longer, i + 1, d, n + 1);
            }
        } else {
            lemma_next_not_deeper_is(longer, n + 1, depth as int, n + 1);
        }
    }
}

/// Once the processing of the action at `at` is over, the records are framed
/// at the level of that action again.
pub(crate) proof fn lemma_framed_pop<State, Action: EnablingCondition<State>>(
    history: Seq<Record<State, Action>>,
    depth: RecursionDepth,
    at: int,
)
    requires
        depth < u32::MAX,
        framed(history, (depth + 1) as RecursionDepth),
        0 <= at < history.len(),
        history[at].meta@.depth == depth,
        cascade(history, at + 1, depth + 1, history[at].enqueued),
    ensures
        framed(history, depth),
{
    reveal(framed);
    assert forall|j: int| at + 1 <= j < history.len() implies (#[trigger] history[j]).meta@.depth
        > depth by {
        reveal(drained);
    }
    assert forall|i: int|
        0 <= i < history.len() && (span_end(history, i) < history.len() || (#[trigger] history[i]).meta@.depth
            >= depth) implies cascade(
        history.take(span_end(history, i)),
        i + 1,
        history[i].meta@.depth + 1,
        history[i].enqueued,
    ) by {
        if span_end(history, i) >= history.len() && history[i].meta@.depth == depth {
            lemma_next_not_deeper(history, i + 1, depth as int);
            if i < at {
                assert(history[at].meta@.depth > depth);
            } else if i > at {
                assert(history[i].meta@.depth > depth);
            }
            assert(history.take(history.len() as int) =~= history);
        }
    }
}

/// What the effects dispatched directly is drained, with no queued action's
/// turn come yet.
pub(crate) proof fn lemma_drain_start<State, Action: EnablingCondition<State>>(
    history: Seq<Record<State, Action>>,
    start: int,
    child_depth: RecursionDepth,
    enqueued: Seq<Action>,
)
    requires
        direct_run(history, start, child_depth),
    ensures
        drained(history, start, child_depth as int, enqueued, 0),
{
    reveal(drained);
    reveal(direct_run);
}

/// An action that cannot be dispatched when its turn comes is dropped, and
/// the records stay as they are.
pub(crate) proof fn lemma_drain_skip<State, Action: EnablingCondition<State>>(
    history: Seq<Record<State, Action>>,
    start: int,
    child_depth: int,
    enqueued: Seq<Action>,
    slot: int,
)
    requires
        drained(history, start, child_depth, enqueued, slot),
        0 <= slot < enqueued.len(),
        start <= history.len(),
        !runnable(enqueued[slot], history, history.len() as int, child_depth),
    ensures
        drained(history, start, child_depth, enqueued, slot + 1),
{
    reveal(drained);
    assert forall|k: int, at: int|
        0 <= k < slot + 1 && k < enqueued.len() && #[trigger] turn_at(
            history,
            start,
            child_depth,
            k,
            at,
        ) implies !runnable(enqueued[k], history, at, child_depth) by {
        if k == slot {
            if at < history.len() {
                assert(is_child(history[at], child_depth));
                assert(history[at].queued->0 < slot);
            }
        }
    }
}

/// The records of an action that was taken from the place `slot` of the queue
/// and dispatched extend what was drained by one step.
pub(crate) proof fn lemma_drain_step<State, Action: EnablingCondition<State>>(
    before: Seq<Record<State, Action>>,
    after: Seq<Record<State, Action>>,
    start: int,
    child_depth: RecursionDepth,
    enqueued: Seq<Action>,
    slot: int,
)
    requires
        0 < start <= before.len(),
        drained(before, start, child_depth as int, enqueued, slot),
        extends(after, before),
        frame(after, before.len() as int, child_depth, Some(slot as nat)),
        0 <= slot < enqueued.len(),
        after[before.len() as int].action == enqueued[slot],
        runnable(enqueued[slot], before, before.len() as int, child_depth as int),
    ensures
        drained(after, start, child_depth as int, enqueued, slot + 1),
{
    reveal(drained);
    reveal(extends);
    let n = before.len() as int;
    let depth = child_depth as int;
    assert(after[n - 1] == before[n - 1]);
    assert forall|i: int| start <= i < after.len() implies (#[trigger] after[i]).meta@.depth
        >= depth by {
        if i < n {
            assert(after[i] == before[i]);
        }
    }
    assert forall|i: int| start <= i < after.len() && is_child(#[trigger] after[i], depth) implies {
        &&& after[i].queued->0 < slot + 1
        &&& after[i].queued->0 < enqueued.len()
        &&& after[i].action == enqueued[after[i].queued->0 as int]
        &&& runnable(after[i].action, after, i, depth)
    } by {
        if i < n {
            assert(after[i] == before[i]);
            assert(after[i - 1] == before[i - 1]);
            assert(runnable(before[i].action, before, i, depth));
        } else if i > n {
            assert(after[i].meta@.depth >= depth + 1);
        }
    }
    assert forall|i: int, j: int|
        start <= i < j < after.len() && (#[trigger] after[i]).meta@.depth == depth && (
        #[trigger] after[j]).meta@.depth == depth && after[i].queued is Some implies after[j].queued is Some
        && after[i].queued->0 < after[j].queued->0 by {
        if j < n {
            assert(after[i] == before[i]);
            assert(after[j] == before[j]);
        } else if j == n {
            assert(after[i] == before[i]);
            assert(is_child(before[i], depth));
        } else {
            assert(after[j].meta@.depth >= depth + 1);
        }
    }
    assert forall|k: int, at: int|
        0 <= k < slot + 1 && k < enqueued.len() && #[trigger] turn_at(after, start, depth, k, at)
        implies !runnable(enqueued[k], after, at, depth) by {
        assert(is_child(after[n], depth));
        if k == slot {
            if at < n {
                assert(after[at] == before[at]);
                assert(is_child(before[at], depth));
            } else if at > n {
                assert(after[n].queued->0 < k);
            }
        } else {
            if at <= n {
                assert(turn_at(before, start, depth, k, at)) by {
                    if at < n {
                        assert(after[at] == before[at]);
                    }
                    assert forall|i: int|
                        start <= i < at && is_child(#[trigger] before[i], depth) implies before[i].queued->0
                        < k by {
                        assert(after[i] == before[i]);
                    }
                }
                assert(!runnable(enqueued[k], before, at, depth));
                assert(after[at - 1] == before[at - 1]);
            } else {
                assert(after[n].queued->0 < k);
            }
        }
    }
}

} // verus!
