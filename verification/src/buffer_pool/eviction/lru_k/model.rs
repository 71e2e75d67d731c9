use super::lru_k_node::NodeModel;
use crate::buffer_pool::common::FrameId;
use vstd::prelude::*;

verus! {

/// The state of an LRU-K replacer, as mathematics.
pub struct ReplacerModel {
    /// How many frames may be held at a time.
    pub capacity: nat,
    /// The window size k: how many access times each tracker retains.
    pub max_history: nat,
    /// The time that the next access will be given.
    pub clock: nat,
    /// How many of the held frames are evictable.
    pub evictable_count: nat,
    /// The tracker of each held frame.
    pub nodes: Map<FrameId, NodeModel>,
}

impl ReplacerModel {
    /// A replacer that tracks nothing. Its clock stands at 1.
    pub open spec fn empty(capacity: nat, max_history: nat) -> ReplacerModel {
        ReplacerModel { capacity, max_history, clock: 1, evictable_count: 0, nodes: Map::empty() }
    }

    /// The frame is held and marked evictable.
    pub open spec fn is_evictable(self, frame_id: FrameId) -> bool {
        self.nodes.contains_key(frame_id) && self.nodes[frame_id].evictable
    }

    /// The frames that are held and marked evictable.
    pub open spec fn evictable_frames(self) -> Set<FrameId> {
        self.nodes.dom().filter(|frame_id: FrameId| self.nodes[frame_id].evictable)
    }

    /// Each held frame with its evictability flag.
    pub open spec fn flags(self) -> Map<FrameId, bool> {
        self.nodes.map_values(|node: NodeModel| node.evictable)
    }

    /// What holds of one tracker: it belongs to the frame it is filed under, has
    /// the replacer's window size, has seen at least one access and retains no
    /// more than the window allows, and its access times lie in the past and
    /// grow from oldest to newest.
    pub open spec fn tracker_inv(self, frame_id: FrameId) -> bool {
        let node = self.nodes[frame_id];
        &&& node.frame_id == frame_id
        &&& node.max_history == self.max_history
        &&& 1 <= node.history.len() <= self.max_history
        &&& forall|i: int| 0 <= i < node.history.len() ==> #[trigger] node.history[i] < self.clock
        &&& forall|i: int, j: int|
            0 <= i < j < node.history.len() ==> #[trigger] node.history[i]
                < #[trigger] node.history[j]
    }

    /// No access time occurs in the windows of two different frames.
    pub open spec fn timestamps_distinct(self) -> bool {
        forall|f: FrameId, g: FrameId, i: int, j: int|
            #![trigger self.nodes[f].history[i], self.nodes[g].history[j]]
            self.nodes.contains_key(f) && self.nodes.contains_key(g) && f != g && 0 <= i
                < self.nodes[f].history.len() && 0 <= j < self.nodes[g].history.len()
                ==> self.nodes[f].history[i] != self.nodes[g].history[j]
    }

    /// The invariant of a replacer's state.
    pub open spec fn inv(self) -> bool {
        &&& self.max_history >= 1
        &&& self.clock >= 1
        &&& self.nodes.dom().finite()
        &&& self.nodes.len() <= self.capacity
        &&& self.evictable_count == self.evictable_frames().len()
        &&& forall|frame_id: FrameId| #[trigger]
            self.nodes.contains_key(frame_id) ==> self.tracker_inv(frame_id)
        &&& self.timestamps_distinct()
    }

    /// The backward k-distance of a held frame: how long ago its k-th most
    /// recent access was. `None` stands for infinity, the distance of a frame
    /// that has not been accessed k times yet.
    pub open spec fn backward_k_distance(self, frame_id: FrameId) -> Option<int> {
        let node = self.nodes[frame_id];
        if node.has_full_window() {
            Some(self.clock - node.history.first())
        } else {
            None
        }
    }

    /// Whether `first` goes before `second` when both are evictable: the one
    /// with the larger backward k-distance goes first, an infinite distance
    /// being larger than every finite one. Of two frames at infinite distance,
    /// the one whose oldest retained access is older goes first.
    pub open spec fn evicted_before(self, first: FrameId, second: FrameId) -> bool {
        match (self.backward_k_distance(first), self.backward_k_distance(second)) {
            (None, Some(_)) => true,
            (Some(_), None) => false,
            (None, None) => {
                let first_node = self.nodes[first];
                let second_node = self.nodes[second];
                first_node.history.first() < second_node.history.first()
            },
            (Some(first_distance), Some(second_distance)) => first_distance > second_distance,
        }
    }

    /// The frame is evictable and goes before every other evictable frame.
    pub open spec fn is_victim(self, frame_id: FrameId) -> bool {
        &&& self.is_evictable(frame_id)
        &&& forall|other: FrameId| #[trigger]
            self.is_evictable(other) && other != frame_id ==> self.evicted_before(
                frame_id,
                other,
            )
    }

    /// The frame to evict next, if any frame is evictable.
    pub open spec fn victim(self) -> Option<FrameId> {
        if exists|frame_id: FrameId| self.is_victim(frame_id) {
            Some(choose|frame_id: FrameId| self.is_victim(frame_id))
        } else {
            None
        }
    }

    /// An access to the frame can be recorded: the frame is held already, or
    /// there is room for one more.
    pub open spec fn accepts_access(self, frame_id: FrameId) -> bool {
        self.nodes.contains_key(frame_id) || self.nodes.len() < self.capacity
    }

    /// The state after an access to the frame. Where the access is accepted, the
    /// frame's tracker, a fresh one if the frame was not held, records the
    /// clock's value, and the clock advances by one. Otherwise nothing changes.
    pub open spec fn record_access(self, frame_id: FrameId) -> ReplacerModel {
        if self.accepts_access(frame_id) {
            let node = if self.nodes.contains_key(frame_id) {
                self.nodes[frame_id]
            } else {
                NodeModel::fresh(self.max_history, frame_id)
            };
            ReplacerModel {
                clock: self.clock + 1,
                nodes: self.nodes.insert(frame_id, node.record(self.clock)),
                ..self
            }
        } else {
            self
        }
    }

    /// The state after a run of accesses, in order.
    pub open spec fn record_accesses(self, frame_ids: Seq<FrameId>) -> ReplacerModel
        decreases frame_ids.len(),
    {
        if frame_ids.len() == 0 {
            self
        } else {
            self.record_accesses(frame_ids.drop_last()).record_access(frame_ids.last())
        }
    }

    /// The state after the flag of the frame is set. Where the frame is held
    /// and its flag differs, the flag flips and the count of evictable frames
    /// follows. Otherwise nothing changes.
    pub open spec fn set_evictable(self, frame_id: FrameId, evictable: bool) -> ReplacerModel {
        if self.nodes.contains_key(frame_id) && self.nodes[frame_id].evictable != evictable {
            ReplacerModel {
                evictable_count: if evictable {
                    self.evictable_count + 1
                } else {
                    (self.evictable_count - 1) as nat
                },
                nodes: self.nodes.insert(
                    frame_id,
                    self.nodes[frame_id].with_evictable(evictable),
                ),
                ..self
            }
        } else {
            self
        }
    }

    /// The state after the frame's removal. Where the frame is held and
    /// evictable, its tracker is dropped and the count of evictable frames goes
    /// down by one. Otherwise nothing changes.
    pub open spec fn remove(self, frame_id: FrameId) -> ReplacerModel {
        if self.is_evictable(frame_id) {
            ReplacerModel {
                evictable_count: (self.evictable_count - 1) as nat,
                nodes: self.nodes.remove(frame_id),
                ..self
            }
        } else {
            self
        }
    }

    /// The state after an eviction: the victim, if there is one, is removed.
    pub open spec fn evict(self) -> ReplacerModel {
        match self.victim() {
            Some(frame_id) => self.remove(frame_id),
            None => self,
        }
    }
}

/// One call of a mutating operation of the replacer.
pub enum Call {
    RecordAccess(FrameId),
    SetEvictable(FrameId, bool),
    Remove(FrameId),
    Evict,
}

impl ReplacerModel {
    /// The state after one call.
    pub open spec fn apply(self, call: Call) -> ReplacerModel {
        match call {
            Call::RecordAccess(frame_id) => self.record_access(frame_id),
            Call::SetEvictable(frame_id, evictable) => self.set_evictable(frame_id, evictable),
            Call::Remove(frame_id) => self.remove(frame_id),
            Call::Evict => self.evict(),
        }
    }

    /// The state after a run of calls, in order.
    pub open spec fn apply_all(self, calls: Seq<Call>) -> ReplacerModel
        decreases calls.len(),
    {
        if calls.len() == 0 {
            self
        } else {
            self.apply_all(calls.drop_last()).apply(calls.last())
        }
    }
}

/// The accesses of a run are all accepted, each in the state that the ones
/// before it have left.
pub open spec fn accepts_accesses(state: ReplacerModel, frame_ids: Seq<FrameId>) -> bool {
    forall|i: int|
        0 <= i < frame_ids.len() ==> #[trigger] state.record_accesses(
            frame_ids.take(i),
        ).accepts_access(frame_ids[i])
}

/// The times that a run of accepted accesses gives to one frame, oldest
/// first, after what the frame's window held when the run began. The access at
/// position `i` of the run is given the time `i` past the clock's start.
pub open spec fn times_given(
    state: ReplacerModel,
    frame_ids: Seq<FrameId>,
    frame_id: FrameId,
) -> Seq<nat>
    decreases frame_ids.len(),
{
    if frame_ids.len() == 0 {
        if state.nodes.contains_key(frame_id) {
            state.nodes[frame_id].history
        } else {
            Seq::empty()
        }
    } else {
        let earlier = times_given(state, frame_ids.drop_last(), frame_id);
        if frame_ids.last() == frame_id {
            earlier.push((state.clock + frame_ids.len() - 1) as nat)
        } else {
            earlier
        }
    }
}

} // verus!
