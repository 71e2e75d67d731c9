use super::lru_k_node::{lemma_most_recent_push, most_recent};
use super::model::{accepts_accesses, times_given, Call, ReplacerModel};
use crate::buffer_pool::common::FrameId;
use crate::buffer_pool::eviction::replacer::flagged;
use vstd::prelude::*;
use vstd::set_lib::lemma_len_subset;

verus! {

/// The evictable frames are the held frames whose flag is set, and there are
/// finitely many of them, no more than frames are held.
pub proof fn lemma_evictable_frames(state: ReplacerModel)
    requires
        state.nodes.dom().finite(),
    ensures
        state.evictable_frames() == flagged(state.flags()),
        state.evictable_frames().finite(),
        state.evictable_frames().len() <= state.nodes.len(),
        forall|frame_id: FrameId| #[trigger]
            state.evictable_frames().contains(frame_id) <==> state.is_evictable(frame_id),
{
    assert(state.flags().dom() =~= state.nodes.dom());
    assert(state.evictable_frames() =~= flagged(state.flags()));
    lemma_len_subset(state.evictable_frames(), state.nodes.dom());
}

/// The count of evictable frames counts a frame that is evictable, and stays
/// below the number of held frames while one of them is not evictable.
pub proof fn lemma_evictable_count_bounds(state: ReplacerModel, frame_id: FrameId)
    requires
        state.inv(),
        state.nodes.contains_key(frame_id),
    ensures
        state.nodes[frame_id].evictable ==> state.evictable_count >= 1,
        !state.nodes[frame_id].evictable ==> state.evictable_count < state.nodes.len(),
{
    lemma_evictable_frames(state);
    if state.nodes[frame_id].evictable {
        assert(state.evictable_frames().contains(frame_id));
    } else {
        lemma_len_subset(state.evictable_frames(), state.nodes.dom().remove(frame_id));
    }
}

/// Frames that keep their windows keep their access times apart.
proof fn lemma_same_windows_stay_distinct(before: ReplacerModel, after: ReplacerModel)
    requires
        before.timestamps_distinct(),
        forall|frame_id: FrameId| #[trigger]
            after.nodes.contains_key(frame_id) ==> before.nodes.contains_key(frame_id)
                && after.nodes[frame_id].history == before.nodes[frame_id].history,
    ensures
        after.timestamps_distinct(),
{
    assert forall|f: FrameId, g: FrameId, i: int, j: int|
        after.nodes.contains_key(f) && after.nodes.contains_key(g) && f != g
            && 0 <= i < after.nodes[f].history.len()
            && 0 <= j < after.nodes[g].history.len()
        implies #[trigger] after.nodes[f].history[i] != #[trigger] after.nodes[g].history[j] by {
        assert(before.nodes[f].history[i] != before.nodes[g].history[j]);
    }
}

/// Setting a flag keeps the invariant: the count of evictable frames follows
/// the flags.
pub proof fn lemma_set_evictable_inv(state: ReplacerModel, frame_id: FrameId, evictable: bool)
    requires
        state.inv(),
    ensures
        state.set_evictable(frame_id, evictable).inv(),
{
    let after = state.set_evictable(frame_id, evictable);
    if state.nodes.contains_key(frame_id) && state.nodes[frame_id].evictable != evictable {
        lemma_evictable_frames(state);
        assert(after.nodes.dom() =~= state.nodes.dom());
        if evictable {
            assert(after.evictable_frames() =~= state.evictable_frames().insert(frame_id));
        } else {
            assert(after.evictable_frames() =~= state.evictable_frames().remove(frame_id));
        }
        assert forall|other: FrameId| #[trigger] after.nodes.contains_key(other)
            implies after.tracker_inv(other) by {
            assert(state.tracker_inv(other));
            assert(after.nodes[other].history == state.nodes[other].history);
        }
        lemma_same_windows_stay_distinct(state, after);
    }
}

/// Removing a frame keeps the invariant.
pub proof fn lemma_remove_inv(state: ReplacerModel, frame_id: FrameId)
    requires
        state.inv(),
    ensures
        state.remove(frame_id).inv(),
{
    let after = state.remove(frame_id);
    if state.is_evictable(frame_id) {
        lemma_evictable_frames(state);
        assert(after.evictable_frames() =~= state.evictable_frames().remove(frame_id));
        assert forall|other: FrameId| #[trigger] after.nodes.contains_key(other)
            implies after.tracker_inv(other) by {
            assert(state.tracker_inv(other));
        }
        lemma_same_windows_stay_distinct(state, after);
    }
}

/// Evicting keeps the invariant.
pub proof fn lemma_evict_inv(state: ReplacerModel)
    requires
        state.inv(),
    ensures
        state.evict().inv(),
{
    if let Some(frame_id) = state.victim() {
        lemma_remove_inv(state, frame_id);
    }
}

/// Where an entry of a window after an accepted access comes from: it is the
/// time of that access, or it stood in the same frame's window before.
proof fn lemma_recorded_entry(state: ReplacerModel, frame_id: FrameId, other: FrameId, i: int)
    requires
        state.inv(),
        state.accepts_access(frame_id),
        state.record_access(frame_id).nodes.contains_key(other),
        0 <= i < state.record_access(frame_id).nodes[other].history.len(),
    ensures
        ({
            let entry = state.record_access(frame_id).nodes[other].history[i];
            ||| other == frame_id && entry == state.clock
            ||| state.nodes.contains_key(other) && entry < state.clock && exists|j: int|
                0 <= j < state.nodes[other].history.len()
                    && #[trigger] state.nodes[other].history[j] == entry
        }),
{
    let after = state.record_access(frame_id);
    let entry = after.nodes[other].history[i];
    if other == frame_id {
        if state.nodes.contains_key(frame_id) {
            assert(state.tracker_inv(frame_id));
            let before = state.nodes[frame_id].history;
            let appended = before.push(state.clock);
            if appended.len() > state.max_history {
                if i + 1 < before.len() {
                    assert(entry == before[i + 1]);
                }
            } else {
                if i < before.len() {
                    assert(entry == before[i]);
                }
            }
        }
    } else {
        assert(state.tracker_inv(other));
        assert(entry == state.nodes[other].history[i]);
    }
}

/// Recording an access keeps the invariant.
pub proof fn lemma_record_access_inv(state: ReplacerModel, frame_id: FrameId)
    requires
        state.inv(),
    ensures
        state.record_access(frame_id).inv(),
{
    let after = state.record_access(frame_id);
    if state.accepts_access(frame_id) {
        lemma_evictable_frames(state);
        if state.nodes.contains_key(frame_id) {
            assert(state.tracker_inv(frame_id));
            assert(after.nodes.dom() =~= state.nodes.dom());
        }
        assert(after.evictable_frames() =~= state.evictable_frames());
        assert forall|other: FrameId| #[trigger] after.nodes.contains_key(other)
            implies after.tracker_inv(other) by {
            if other != frame_id {
                assert(state.tracker_inv(other));
            }
        }
        assert forall|f: FrameId, g: FrameId, i: int, j: int|
            after.nodes.contains_key(f) && after.nodes.contains_key(g) && f != g
                && 0 <= i < after.nodes[f].history.len()
                && 0 <= j < after.nodes[g].history.len()
            implies #[trigger] after.nodes[f].history[i]
            != #[trigger] after.nodes[g].history[j] by {
            lemma_recorded_entry(state, frame_id, f, i);
            lemma_recorded_entry(state, frame_id, g, j);
        }
    }
}

/// The invariant holds after any run of calls, in whatever order they come. In
/// particular the count of evictable frames, which is what the replacer
/// reports as its size, is the number of held frames whose flag is set.
pub proof fn lemma_calls_keep_inv(state: ReplacerModel, calls: Seq<Call>)
    requires
        state.inv(),
    ensures
        state.apply_all(calls).inv(),
        state.apply_all(calls).evictable_count == flagged(
            state.apply_all(calls).flags(),
        ).len(),
    decreases calls.len(),
{
    if calls.len() > 0 {
        lemma_calls_keep_inv(state, calls.drop_last());
        let before = state.apply_all(calls.drop_last());
        match calls.last() {
            Call::RecordAccess(frame_id) => lemma_record_access_inv(before, frame_id),
            Call::SetEvictable(frame_id, evictable) => lemma_set_evictable_inv(
                before,
                frame_id,
                evictable,
            ),
            Call::Remove(frame_id) => lemma_remove_inv(before, frame_id),
            Call::Evict => lemma_evict_inv(before),
        }
    }
    lemma_evictable_frames(state.apply_all(calls));
}

/// At most one frame is the victim.
pub proof fn lemma_victim_unique(state: ReplacerModel, first: FrameId, second: FrameId)
    requires
        state.is_victim(first),
        state.is_victim(second),
    ensures
        first == second,
{
    if first != second {
        assert(state.evicted_before(first, second));
        assert(state.evicted_before(second, first));
    }
}

/// Of two different held frames, one goes before the other: no two frames
/// tie.
pub proof fn lemma_evicted_before_total(state: ReplacerModel, first: FrameId, second: FrameId)
    requires
        state.inv(),
        state.nodes.contains_key(first),
        state.nodes.contains_key(second),
        first != second,
    ensures
        state.evicted_before(first, second) || state.evicted_before(second, first),
{
    assert(state.tracker_inv(first));
    assert(state.tracker_inv(second));
    assert(state.nodes[first].history[0] != state.nodes[second].history[0]);
}

/// Going before is transitive.
pub proof fn lemma_evicted_before_transitive(
    state: ReplacerModel,
    first: FrameId,
    second: FrameId,
    third: FrameId,
)
    requires
        state.evicted_before(first, second),
        state.evicted_before(second, third),
    ensures
        state.evicted_before(first, third),
{
}

/// Of finitely many held frames, at least one, there is one that goes before
/// all the others.
proof fn lemma_first_among(state: ReplacerModel, candidates: Set<FrameId>) -> (best: FrameId)
    requires
        state.inv(),
        candidates.finite(),
        !candidates.is_empty(),
        candidates.subset_of(state.nodes.dom()),
    ensures
        candidates.contains(best),
        forall|other: FrameId| #[trigger]
            candidates.contains(other) && other != best ==> state.evicted_before(best, other),
    decreases candidates.len(),
{
    let picked = candidates.choose();
    let rest = candidates.remove(picked);
    if rest.is_empty() {
        assert forall|other: FrameId| #[trigger] candidates.contains(other) && other != picked
            implies state.evicted_before(picked, other) by {
            assert(rest.contains(other));
        }
        picked
    } else {
        let best_of_rest = lemma_first_among(state, rest);
        lemma_evicted_before_total(state, picked, best_of_rest);
        if state.evicted_before(picked, best_of_rest) {
            assert forall|other: FrameId| #[trigger] candidates.contains(other) && other != picked
                implies state.evicted_before(picked, other) by {
                assert(rest.contains(other));
                if other != best_of_rest {
                    lemma_evicted_before_transitive(state, picked, best_of_rest, other);
                }
            }
            picked
        } else {
            assert forall|other: FrameId| #[trigger]
                candidates.contains(other) && other != best_of_rest
                implies state.evicted_before(best_of_rest, other) by {
                if other != picked {
                    assert(rest.contains(other));
                }
            }
            best_of_rest
        }
    }
}

/// There is a victim exactly when some frame is evictable, and the victim is
/// one of the evictable frames.
pub proof fn lemma_victim_exists(state: ReplacerModel)
    requires
        state.inv(),
    ensures
        state.victim() is Some <==> state.evictable_count > 0,
        state.victim() matches Some(frame_id) ==> state.is_victim(frame_id),
{
    lemma_evictable_frames(state);
    let candidates = state.evictable_frames();
    if candidates.is_empty() {
        assert forall|frame_id: FrameId| !state.is_victim(frame_id) by {
            assert(!candidates.contains(frame_id));
        }
    } else {
        let best = lemma_first_among(state, candidates);
        assert(state.is_victim(best)) by {
            assert forall|other: FrameId| #[trigger] state.is_evictable(other) && other != best
                implies state.evicted_before(best, other) by {
                assert(candidates.contains(other));
            }
        }
    }
}

/// With no evictable frame there is no victim, and an eviction changes
/// nothing: neither the frames nor the count of evictable ones.
pub proof fn lemma_evict_without_candidates(state: ReplacerModel)
    requires
        state.evictable_frames().is_empty(),
    ensures
        state.victim() is None,
        state.evict() == state,
{
    assert forall|frame_id: FrameId| !state.is_victim(frame_id) by {
        assert(!state.evictable_frames().contains(frame_id));
    }
}

/// An eviction drops the victim and takes one off the count of evictable
/// frames; every other frame keeps its tracker.
pub proof fn lemma_evict_drops_victim(state: ReplacerModel, victim: FrameId)
    requires
        state.inv(),
        state.victim() == Some(victim),
    ensures
        state.is_victim(victim),
        state.evict().nodes == state.nodes.remove(victim),
        state.evict().evictable_count == state.evictable_count - 1,
{
    lemma_victim_exists(state);
    lemma_evictable_count_bounds(state, victim);
}

/// An accepted access advances the clock by exactly one and is recorded, at
/// the time the clock showed before, as the newest entry of the frame's
/// window. A rejected access leaves the state as it was.
pub proof fn lemma_access_ticks_clock(state: ReplacerModel, frame_id: FrameId)
    requires
        state.inv(),
    ensures
        state.accepts_access(frame_id) ==> {
            &&& state.record_access(frame_id).clock == state.clock + 1
            &&& state.record_access(frame_id).nodes.contains_key(frame_id)
            &&& state.record_access(frame_id).nodes[frame_id].history.last() == state.clock
        },
        !state.accepts_access(frame_id) ==> state.record_access(frame_id) == state,
{
    if state.accepts_access(frame_id) && state.nodes.contains_key(frame_id) {
        assert(state.tracker_inv(frame_id));
    }
}

/// An accepted access slides the frame's window: the window then holds the
/// most recent of what it held before and the time of this access, as many as
/// the window size allows. The windows of the other frames stay as they were.
pub proof fn lemma_access_slides_window(state: ReplacerModel, frame_id: FrameId)
    requires
        state.inv(),
        state.accepts_access(frame_id),
    ensures
        state.record_access(frame_id).nodes[frame_id].history == most_recent(
            if state.nodes.contains_key(frame_id) {
                state.nodes[frame_id].history.push(state.clock)
            } else {
                seq![state.clock]
            },
            state.max_history,
        ),
        forall|other: FrameId|
            other != frame_id && #[trigger] state.nodes.contains_key(other)
                ==> state.record_access(frame_id).nodes[other] == state.nodes[other],
{
    if state.nodes.contains_key(frame_id) {
        assert(state.tracker_inv(frame_id));
        let appended = state.nodes[frame_id].history.push(state.clock);
        if appended.len() > state.max_history {
            assert(appended.drop_first() =~= most_recent(appended, state.max_history));
        }
    } else {
        assert(Seq::<nat>::empty().push(state.clock) =~= seq![state.clock]);
    }
}

/// Over a run of accepted accesses, to whatever frames, the clock advances by
/// exactly one per access: the access at position `i` finds the clock at
/// `i` past its start, is recorded at that time, and leaves the clock one
/// further. So the recorded times grow strictly in the order of the calls.
pub proof fn lemma_clock_counts_accesses(state: ReplacerModel, frame_ids: Seq<FrameId>, i: int)
    requires
        state.inv(),
        accepts_accesses(state, frame_ids),
        0 <= i < frame_ids.len(),
    ensures
        state.record_accesses(frame_ids.take(i)).inv(),
        state.record_accesses(frame_ids.take(i)).clock == state.clock + i,
        state.record_accesses(frame_ids.take(i + 1)).clock == state.clock + i + 1,
        state.record_accesses(frame_ids.take(i + 1)).nodes.contains_key(frame_ids[i]),
        state.record_accesses(frame_ids.take(i + 1)).nodes[frame_ids[i]].history.last()
            == state.clock + i,
    decreases i,
{
    let before = state.record_accesses(frame_ids.take(i));
    if i > 0 {
        lemma_clock_counts_accesses(state, frame_ids, i - 1);
        let earlier = state.record_accesses(frame_ids.take(i - 1));
        assert(frame_ids.take(i).drop_last() =~= frame_ids.take(i - 1));
        assert(frame_ids.take(i).last() == frame_ids[i - 1]);
        lemma_record_access_inv(earlier, frame_ids[i - 1]);
    } else {
        assert(frame_ids.take(0).len() == 0);
    }
    assert(frame_ids.take(i + 1).drop_last() =~= frame_ids.take(i));
    assert(frame_ids.take(i + 1).last() == frame_ids[i]);
    assert(before.accepts_access(frame_ids[i]));
    lemma_access_ticks_clock(before, frame_ids[i]);
}

/// After a run of accepted accesses the clock has advanced by their number.
pub proof fn lemma_clock_after_accesses(state: ReplacerModel, frame_ids: Seq<FrameId>)
    requires
        state.inv(),
        accepts_accesses(state, frame_ids),
    ensures
        state.record_accesses(frame_ids).inv(),
        state.record_accesses(frame_ids).clock == state.clock + frame_ids.len(),
{
    if frame_ids.len() > 0 {
        let last = frame_ids.len() - 1;
        lemma_clock_counts_accesses(state, frame_ids, last);
        assert(frame_ids.take(last + 1) =~= frame_ids);
        lemma_record_access_inv(state.record_accesses(frame_ids.take(last)), frame_ids[last]);
        assert(frame_ids.drop_last() =~= frame_ids.take(last));
    }
}

/// Accesses change neither the capacity nor the window size, and no flag: the
/// count of evictable frames stays as it was.
pub proof fn lemma_accesses_keep_parameters(state: ReplacerModel, frame_ids: Seq<FrameId>)
    ensures
        state.record_accesses(frame_ids).capacity == state.capacity,
        state.record_accesses(frame_ids).max_history == state.max_history,
        state.record_accesses(frame_ids).evictable_count == state.evictable_count,
    decreases frame_ids.len(),
{
    if frame_ids.len() > 0 {
        lemma_accesses_keep_parameters(state, frame_ids.drop_last());
    }
}

/// A run of accepted accesses stays accepted when its last access is left out.
proof fn lemma_accepts_earlier_accesses(state: ReplacerModel, frame_ids: Seq<FrameId>)
    requires
        accepts_accesses(state, frame_ids),
        frame_ids.len() > 0,
    ensures
        accepts_accesses(state, frame_ids.drop_last()),
        state.record_accesses(frame_ids.drop_last()).accepts_access(frame_ids.last()),
{
    let earlier = frame_ids.drop_last();
    assert forall|i: int| 0 <= i < earlier.len()
        implies #[trigger] state.record_accesses(earlier.take(i)).accepts_access(earlier[i]) by {
        assert(earlier.take(i) =~= frame_ids.take(i));
        assert(state.record_accesses(frame_ids.take(i)).accepts_access(frame_ids[i]));
    }
    assert(frame_ids.take(frame_ids.len() - 1) =~= earlier);
}

/// After a run of accepted accesses, to whatever frames, the window of each
/// held frame holds the most recent of the times given to that frame, as many
/// as the window size allows, oldest first. A frame that is not held has been
/// given none.
pub proof fn lemma_window_holds_latest_accesses(
    state: ReplacerModel,
    frame_ids: Seq<FrameId>,
    frame_id: FrameId,
)
    requires
        state.inv(),
        accepts_accesses(state, frame_ids),
    ensures
        state.record_accesses(frame_ids).nodes.contains_key(frame_id)
            ==> state.record_accesses(frame_ids).nodes[frame_id].history == most_recent(
            times_given(state, frame_ids, frame_id),
            state.max_history,
        ),
        !state.record_accesses(frame_ids).nodes.contains_key(frame_id) ==> times_given(
            state,
            frame_ids,
            frame_id,
        ) == Seq::<nat>::empty(),
    decreases frame_ids.len(),
{
    if frame_ids.len() == 0 {
        if state.nodes.contains_key(frame_id) {
            assert(state.tracker_inv(frame_id));
        }
    } else {
        let earlier = frame_ids.drop_last();
        let last = frame_ids.last();
        let before = state.record_accesses(earlier);
        lemma_accepts_earlier_accesses(state, frame_ids);
        lemma_window_holds_latest_accesses(state, earlier, frame_id);
        lemma_clock_after_accesses(state, earlier);
        lemma_accesses_keep_parameters(state, earlier);
        if last == frame_id {
            lemma_access_slides_window(before, frame_id);
            lemma_most_recent_push(
                times_given(state, earlier, frame_id),
                state.max_history,
                before.clock,
            );
            if !before.nodes.contains_key(frame_id) {
                assert(Seq::<nat>::empty().push(before.clock) =~= seq![before.clock]);
            }
        }
    }
}

/// Setting a flag twice in a row is the same as setting it once: the second
/// call succeeds or fails as the first did and changes nothing.
pub proof fn lemma_set_evictable_idempotent(
    state: ReplacerModel,
    frame_id: FrameId,
    evictable: bool,
)
    ensures
        state.set_evictable(frame_id, evictable).nodes.contains_key(frame_id)
            == state.nodes.contains_key(frame_id),
        state.set_evictable(frame_id, evictable).set_evictable(frame_id, evictable)
            == state.set_evictable(frame_id, evictable),
{
}

/// A replacer that is full rejects an access to a frame it does not hold, and
/// keeps every frame it holds as it was.
pub proof fn lemma_full_replacer_rejects(state: ReplacerModel, frame_id: FrameId)
    requires
        state.nodes.len() >= state.capacity,
        !state.nodes.contains_key(frame_id),
    ensures
        !state.accepts_access(frame_id),
        state.record_access(frame_id) == state,
{
}

/// Recording accesses to as many different frames as an empty replacer has
/// room for fills it: all of them are accepted, and it then holds exactly
/// those frames and accepts no other.
pub proof fn lemma_accesses_fill_replacer(
    capacity: nat,
    max_history: nat,
    frame_ids: Seq<FrameId>,
)
    requires
        max_history >= 1,
        frame_ids.no_duplicates(),
        frame_ids.len() <= capacity,
    ensures
        accepts_accesses(ReplacerModel::empty(capacity, max_history), frame_ids),
        ReplacerModel::empty(capacity, max_history).record_accesses(frame_ids).nodes.dom()
            == frame_ids.to_set(),
        ReplacerModel::empty(capacity, max_history).record_accesses(frame_ids).nodes.len()
            == frame_ids.len(),
        frame_ids.len() == capacity ==> forall|other: FrameId|
            !frame_ids.contains(other) ==> !(#[trigger] ReplacerModel::empty(
                capacity,
                max_history,
            ).record_accesses(frame_ids).accepts_access(other)),
    decreases frame_ids.len(),
{
    let start = ReplacerModel::empty(capacity, max_history);
    if frame_ids.len() == 0 {
        assert(start.nodes.dom() =~= frame_ids.to_set());
    } else {
        let earlier = frame_ids.drop_last();
        let last = frame_ids.last();
        lemma_accesses_fill_replacer(capacity, max_history, earlier);
        let before = start.record_accesses(earlier);
        lemma_accesses_keep_parameters(start, earlier);
        assert(!earlier.contains(last));
        assert(before.accepts_access(last));
        let after = start.record_accesses(frame_ids);
        assert(after.nodes.dom() =~= frame_ids.to_set()) by {
            assert forall|frame_id: FrameId|
                after.nodes.dom().contains(frame_id) <==> frame_ids.to_set().contains(
                    frame_id,
                ) by {
                if frame_id == last {
                    assert(frame_ids[frame_ids.len() - 1] == last);
                } else if earlier.contains(frame_id) {
                    let i = choose|i: int| 0 <= i < earlier.len() && earlier[i] == frame_id;
                    assert(frame_ids[i] == frame_id);
                } else if frame_ids.contains(frame_id) {
                    let i = choose|i: int| 0 <= i < frame_ids.len() && frame_ids[i] == frame_id;
                    assert(earlier[i] == frame_id);
                }
            }
        }
        assert forall|i: int| 0 <= i < frame_ids.len()
            implies #[trigger] start.record_accesses(frame_ids.take(i)).accepts_access(
            frame_ids[i],
        ) by {
            if i < earlier.len() {
                assert(frame_ids.take(i) =~= earlier.take(i));
                assert(start.record_accesses(earlier.take(i)).accepts_access(earlier[i]));
            } else {
                assert(frame_ids.take(i) =~= earlier);
            }
        }
    }
}

/// A held frame that is not evictable cannot be removed, and the attempt
/// changes nothing. Once it is marked evictable its removal succeeds: the
/// frame is dropped and the count of evictable frames goes down by one.
pub proof fn lemma_remove_needs_evictable(state: ReplacerModel, frame_id: FrameId)
    requires
        state.inv(),
        state.nodes.contains_key(frame_id),
        !state.nodes[frame_id].evictable,
    ensures
        state.remove(frame_id) == state,
        ({
            let marked = state.set_evictable(frame_id, true);
            &&& marked.is_evictable(frame_id)
            &&& marked.evictable_count == state.evictable_count + 1
            &&& !marked.remove(frame_id).nodes.contains_key(frame_id)
            &&& marked.remove(frame_id).nodes == state.nodes.remove(frame_id)
            &&& marked.remove(frame_id).evictable_count == marked.evictable_count - 1
        }),
{
    let marked = state.set_evictable(frame_id, true);
    assert(marked.remove(frame_id).nodes =~= state.nodes.remove(frame_id));
}

} // verus!
