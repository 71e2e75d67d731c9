use super::common::Timestamp;
use super::lru_k_node::LRUKNode;
use super::laws::{
    lemma_evictable_count_bounds, lemma_evictable_frames, lemma_record_access_inv,
    lemma_remove_inv, lemma_set_evictable_inv, lemma_victim_unique,
};
use super::model::ReplacerModel;
use crate::buffer_pool::common::FrameId;
use crate::buffer_pool::eviction::replacer::{flagged, Replacer};
use crate::buffer_pool::eviction::replacer::responses::{
    EvictionResponse, RecordAccessResponse, RemoveResponse, ReplacerSizeResponse,
    SetEvictableResponse,
};
use crate::types::{CrabDBError, CrabDbResult};
use std::collections::hash_map::Entry;
use std::collections::HashMap;
use vstd::prelude::*;
use vstd::std_specs::iter::IteratorSpec;

verus! {

/// A replacer that follows the LRU-K policy.
pub struct LRUKReplacer {
    max_accesses: usize,
    replacer_size: usize,
    state: LRUKReplacerState,
}

/// The part of a replacer that changes: the clock, the trackers and the count
/// of evictable frames.
#[derive(Debug)]
pub struct LRUKReplacerState {
    current_size: usize,
    current_timestamp: Timestamp,
    node_store: HashMap<FrameId, LRUKNode>,
}

impl View for LRUKReplacer {
    type V = ReplacerModel;

    closed spec fn view(&self) -> ReplacerModel {
        ReplacerModel {
            capacity: self.replacer_size as nat,
            max_history: self.max_accesses as nat,
            clock: self.state.current_timestamp as nat,
            evictable_count: self.state.current_size as nat,
            nodes: self.state.node_store@.map_values(|node: LRUKNode| node@),
        }
    }
}

/// The message of the error for an access that finds no room.
pub open spec fn capacity_exceeded_message() -> Seq<char> {
    "Frame cannot exceed replacer size"@
}

/// The message of the error for removing a frame that is not held.
pub open spec fn remove_unknown_frame_message() -> Seq<char> {
    "Frame doesn't exist; invalid remove command"@
}

/// The message of the error for removing a frame that is not evictable.
pub open spec fn not_evictable_message() -> Seq<char> {
    "Frame is marked as not evictable"@
}

/// The message of the error for setting the flag of a frame that is not held.
pub open spec fn set_evictable_unknown_frame_message() -> Seq<char> {
    "Frame doesn't exist to set_evictable"@
}

/// The four messages differ from one another, so the message of an error tells
/// which failure it reports.
pub proof fn lemma_error_messages_distinct()
    ensures
        capacity_exceeded_message() != remove_unknown_frame_message(),
        capacity_exceeded_message() != not_evictable_message(),
        capacity_exceeded_message() != set_evictable_unknown_frame_message(),
        remove_unknown_frame_message() != not_evictable_message(),
        remove_unknown_frame_message() != set_evictable_unknown_frame_message(),
        not_evictable_message() != set_evictable_unknown_frame_message(),
{
    reveal_strlit("Frame cannot exceed replacer size");
    reveal_strlit("Frame doesn't exist; invalid remove command");
    reveal_strlit("Frame is marked as not evictable");
    reveal_strlit("Frame doesn't exist to set_evictable");
    assert(capacity_exceeded_message().len() == 33);
    assert(remove_unknown_frame_message().len() == 43);
    assert(not_evictable_message().len() == 32);
    assert(set_evictable_unknown_frame_message().len() == 36);
}

impl LRUKReplacer {
    /// A replacer that tracks up to `replacer_size` frames and ranks them by
    /// their `max_accesses` most recent accesses. It tracks nothing yet.
    pub fn new(replacer_size: usize, max_accesses: usize) -> (replacer: Self)
        requires
            max_accesses >= 1,
        ensures
            replacer.wf(),
            replacer@ == ReplacerModel::empty(replacer_size as nat, max_accesses as nat),
    {
        let replacer = LRUKReplacer {
            replacer_size,
            max_accesses: max_accesses,
            state: LRUKReplacerState {
                current_size: 0,
                current_timestamp: 1,
                node_store: HashMap::new(),
            },
        };
        assert(replacer@.nodes =~= Map::empty());
        assert(replacer@.evictable_frames() =~= Set::empty());
        replacer
    }

    /// The time that the next access will be recorded at. An access can be
    /// recorded as long as this is below the largest timestamp.
    pub fn current_timestamp(&self) -> (now: Timestamp)
        ensures
            now == self@.clock,
    {
        self.state.current_timestamp
    }

    /// Scans the trackers for the frame to evict next.
    fn find_victim(&self) -> (victim: Option<FrameId>)
        requires
            self.wf(),
        ensures
            match victim {
                Some(frame_id) => self@.is_victim(frame_id),
                None => forall|frame_id: FrameId| !self@.is_evictable(frame_id),
            },
    {
        let mut victim: Option<FrameId> = None;
        let mut victim_has_full_window: bool = false;
        let mut victim_earliest: Timestamp = 0;
        let ghost entries = self.state.node_store.iter().remaining();
        for (frame_id, node) in iter: self.state.node_store.iter()
            invariant
                self.wf(),
                iter.seq() == entries,
                entries == self.state.node_store.iter().remaining(),
                match victim {
                    Some(best) => {
                        &&& self@.is_evictable(best)
                        &&& victim_has_full_window == self@.nodes[best].has_full_window()
                        &&& victim_earliest == self@.nodes[best].history.first()
                        &&& forall|i: int|
                            0 <= i < iter.index() && self@.is_evictable(*entries[i].0)
                                && *entries[i].0 != best ==> self@.evicted_before(
                                best,
                                *#[trigger] entries[i].0,
                            )
                    },
                    None => forall|i: int|
                        0 <= i < iter.index() ==> !self@.is_evictable(*#[trigger] entries[i].0),
                },
        {
            proof {
                // the entry at hand is the tracker that the view files under
                // this frame
                assert(entries[iter.index()] == (frame_id, node));
                assert(self.state.node_store@.contains_key(*frame_id));
                assert(self.state.node_store@[*frame_id] == *node);
                assert(self@.nodes.contains_key(*frame_id));
                assert(self@.nodes[*frame_id] == node@);
                assert(self@.tracker_inv(*frame_id));
            }
            if node.is_evictable() {
                let has_full_window = node.history_length() >= self.max_accesses;
                let earliest = *node.front_of_history().unwrap();
                let goes_first = match victim {
                    None => true,
                    Some(_) => if has_full_window == victim_has_full_window {
                        earliest < victim_earliest
                    } else {
                        !has_full_window
                    },
                };
                if goes_first {
                    victim = Some(*frame_id);
                    victim_has_full_window = has_full_window;
                    victim_earliest = earliest;
                }
            }
        }
        proof {
            // the scan has met every held frame
            assert forall|frame_id: FrameId| self@.is_evictable(frame_id) implies exists|i: int|
                0 <= i < entries.len() && *#[trigger] entries[i].0 == frame_id by {
                assert(self.state.node_store@.contains_key(frame_id));
                let entry = (&frame_id, &self.state.node_store@[frame_id]);
                assert(entries.contains(entry));
                let i = choose|i: int| 0 <= i < entries.len() && entries[i] == entry;
                assert(*entries[i].0 == frame_id);
            }
        }
        victim
    }
}

impl Replacer for LRUKReplacer {
    open spec fn wf(&self) -> bool {
        self@.inv()
    }

    open spec fn frames(&self) -> Map<FrameId, bool> {
        self@.flags()
    }

    open spec fn capacity(&self) -> nat {
        self@.capacity
    }

    /// The clock has not reached the largest timestamp.
    open spec fn can_record(&self) -> bool {
        self@.clock < Timestamp::MAX
    }

    /// Evicts the evictable frame with the largest backward k-distance; of
    /// frames at infinite distance, the one whose oldest retained access is
    /// oldest. No two frames tie, so the victim does not depend on the order in
    /// which the trackers are scanned.
    fn evict(&mut self) -> (response: CrabDbResult<EvictionResponse>)
        ensures
            final(self)@ == old(self)@.evict(),
            response matches Ok(eviction) && eviction.frame_id() == old(self)@.victim(),
            response matches Ok(eviction) && match eviction.frame_id() {
                Some(victim) => old(self)@.is_victim(victim),
                None => old(self)@.evictable_count == 0 && final(self)@ == old(self)@,
            },
    {
        let evicted_frame = self.find_victim();
        proof {
            lemma_evictable_frames(self@);
            match evicted_frame {
                Some(frame_id) => {
                    lemma_victim_unique(self@, frame_id, self@.victim().unwrap());
                },
                None => {
                    assert(flagged(self.frames()) =~= Set::empty());
                },
            }
        }
        if let Some(frame_id) = evicted_frame {
            let removed = self.remove(frame_id);
            assert(removed is Ok);
        }
        Ok(EvictionResponse::new(evicted_frame))
    }

    /// Records an access at the clock's present value and advances the clock
    /// by one. A frame that is not held yet gets a tracker, unless the replacer
    /// is full: then the call fails, and neither the trackers nor the clock
    /// change.
    fn record_access(&mut self, frame_id: FrameId) -> (response: CrabDbResult<
        RecordAccessResponse,
    >)
        ensures
            final(self)@ == old(self)@.record_access(frame_id),
            response is Ok <==> old(self)@.accepts_access(frame_id),
            response matches Err(error) ==> error@ == capacity_exceeded_message(),
    {
        let current_timestamp = self.state.current_timestamp;
        let is_full = self.state.node_store.len() >= self.replacer_size;
        proof {
            lemma_record_access_inv(self@, frame_id);
            assert(self@.nodes.dom() =~= self.state.node_store@.dom());
            assert(self.frames().dom() =~= self@.nodes.dom());
        }
        match self.state.node_store.entry(frame_id) {
            Entry::Occupied(mut entry) => {
                entry.get_mut().record_history(current_timestamp);
            },
            Entry::Vacant(entry) => {
                if is_full {
                    proof {
                        assert(self.state.node_store@ =~= old(self).state.node_store@);
                    }
                    return Err(
                        CrabDBError::new("Frame cannot exceed replacer size".to_owned()),
                    );
                }
                let mut node = LRUKNode::new(self.max_accesses, frame_id);
                node.record_history(current_timestamp);
                entry.insert(node);
            },
        }
        self.state.current_timestamp += 1;
        proof {
            assert(self@.nodes =~= old(self)@.record_access(frame_id).nodes);
            if old(self)@.nodes.contains_key(frame_id) {
                assert(self.frames() =~= old(self).frames());
            } else {
                assert(self.frames() =~= old(self).frames().insert(frame_id, false));
            }
        }
        Ok(RecordAccessResponse {  })
    }

    /// Drops the tracker of an evictable frame. The error says whether the
    /// frame was not held or was held and not evictable.
    fn remove(&mut self, frame_id: FrameId) -> (response: CrabDbResult<RemoveResponse>)
        ensures
            final(self)@ == old(self)@.remove(frame_id),
            response is Ok <==> old(self)@.is_evictable(frame_id),
            response matches Err(error) ==> error@ == if old(self)@.nodes.contains_key(frame_id) {
                not_evictable_message()
            } else {
                remove_unknown_frame_message()
            },
    {
        proof {
            lemma_evictable_frames(self@);
            lemma_remove_inv(self@, frame_id);
            if self@.nodes.contains_key(frame_id) {
                lemma_evictable_count_bounds(self@, frame_id);
            }
        }
        match self.state.node_store.get(&frame_id) {
            Some(node) => {
                if node.is_evictable() {
                    self.state.node_store.remove(&frame_id);
                    self.state.current_size -= 1;
                } else {
                    return Err(CrabDBError::new("Frame is marked as not evictable".to_owned()));
                }
            },
            None => {
                return Err(
                    CrabDBError::new("Frame doesn't exist; invalid remove command".to_owned()),
                );
            },
        }
        proof {
            assert(self@.nodes =~= old(self)@.remove(frame_id).nodes);
            assert(self.frames() =~= old(self).frames().remove(frame_id));
        }
        Ok(RemoveResponse {  })
    }

    /// Sets the flag of a held frame and keeps the count of evictable frames
    /// in step. Setting a flag to the value it has changes nothing.
    fn set_evictable(&mut self, frame_id: FrameId, set_evictable: bool) -> (response:
        CrabDbResult<SetEvictableResponse>)
        ensures
            final(self)@ == old(self)@.set_evictable(frame_id, set_evictable),
            response matches Err(error) ==> error@ == set_evictable_unknown_frame_message(),
    {
        proof {
            lemma_evictable_frames(self@);
            lemma_set_evictable_inv(self@, frame_id, set_evictable);
            if self@.nodes.contains_key(frame_id) {
                lemma_evictable_count_bounds(self@, frame_id);
            }
            assert(self.frames().dom() =~= self.state.node_store@.dom());
        }
        match self.state.node_store.entry(frame_id) {
            Entry::Occupied(mut entry) => {
                let node = entry.get_mut();
                if node.is_evictable() != set_evictable {
                    node.set_evictable(set_evictable);
                    if set_evictable {
                        self.state.current_size += 1;
                    } else {
                        self.state.current_size -= 1;
                    }
                }
            },
            Entry::Vacant(_) => {
                proof {
                    assert(self.state.node_store@ =~= old(self).state.node_store@);
                }
                return Err(
                    CrabDBError::new("Frame doesn't exist to set_evictable".to_owned()),
                );
            },
        }
        proof {
            assert(self@.nodes =~= old(self)@.set_evictable(frame_id, set_evictable).nodes);
            assert(self.frames() =~= old(self).frames().insert(frame_id, set_evictable));
        }
        Ok(SetEvictableResponse {  })
    }

    /// The count of evictable frames, which is the number of held frames
    /// whose flag is set.
    fn size(&self) -> (response: CrabDbResult<ReplacerSizeResponse>)
        ensures
            response matches Ok(size) && size.num_evictable_frames() == self@.evictable_count,
    {
        proof {
            lemma_evictable_frames(self@);
        }
        Ok(ReplacerSizeResponse::new(self.state.current_size))
    }
}

} // verus!
