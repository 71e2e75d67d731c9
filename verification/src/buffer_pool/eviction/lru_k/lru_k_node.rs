use super::common::Timestamp;
use crate::buffer_pool::common::FrameId;
use std::collections::VecDeque;
use vstd::prelude::*;

verus! {

/// What a tracker holds, as mathematics: the window of its most recent access
/// times, oldest first, and whether its frame may be evicted.
pub struct NodeModel {
    /// How many access times the window retains at most.
    pub max_history: nat,
    /// The retained access times, oldest first.
    pub history: Seq<nat>,
    /// The frame that the tracker belongs to.
    pub frame_id: FrameId,
    /// Whether the frame is a candidate for eviction.
    pub evictable: bool,
}

impl NodeModel {
    /// A tracker that has seen no access yet. Its frame is not evictable.
    pub open spec fn fresh(max_history: nat, frame_id: FrameId) -> NodeModel {
        NodeModel { max_history, history: Seq::empty(), frame_id, evictable: false }
    }

    /// The tracker after one more access: the time is appended, and the oldest
    /// entry leaves if the window has grown past its bound.
    pub open spec fn record(self, timestamp: nat) -> NodeModel {
        let appended = self.history.push(timestamp);
        NodeModel {
            history: if appended.len() > self.max_history {
                appended.drop_first()
            } else {
                appended
            },
            ..self
        }
    }

    /// The tracker after a run of accesses, recorded in order.
    pub open spec fn record_all(self, timestamps: Seq<nat>) -> NodeModel
        decreases timestamps.len(),
    {
        if timestamps.len() == 0 {
            self
        } else {
            self.record(timestamps.first()).record_all(timestamps.drop_first())
        }
    }

    /// The same tracker with the given evictability flag.
    pub open spec fn with_evictable(self, evictable: bool) -> NodeModel {
        NodeModel { evictable, ..self }
    }

    /// The window holds no more entries than it may retain.
    pub open spec fn window_bounded(self) -> bool {
        self.history.len() <= self.max_history
    }

    /// The window holds as many entries as it may retain, so its oldest entry is
    /// the k-th most recent access.
    pub open spec fn has_full_window(self) -> bool {
        self.history.len() >= self.max_history
    }

    /// The oldest access time in the window, if there is any.
    pub open spec fn earliest(self) -> Option<nat> {
        if self.history.len() > 0 {
            Some(self.history.first())
        } else {
            None
        }
    }
}

/// The last `count` entries of `entries`, or all of them if there are fewer.
pub open spec fn most_recent(entries: Seq<nat>, count: nat) -> Seq<nat> {
    if entries.len() <= count {
        entries
    } else {
        entries.subrange(entries.len() - count, entries.len() as int)
    }
}

/// The most recent entries after one more entry can be taken from the most
/// recent entries before it.
pub proof fn lemma_most_recent_push(entries: Seq<nat>, count: nat, entry: nat)
    ensures
        most_recent(most_recent(entries, count).push(entry), count) == most_recent(
            entries.push(entry),
            count,
        ),
{
    assert(most_recent(most_recent(entries, count).push(entry), count) =~= most_recent(
        entries.push(entry),
        count,
    ));
}

/// A window that is within its bound holds, after any run of accesses, exactly
/// the most recent of all the access times it was given, oldest first. In
/// particular, once more accesses than the bound have been recorded, it holds
/// as many entries as the bound allows: the last ones recorded.
pub proof fn lemma_window_keeps_most_recent(node: NodeModel, timestamps: Seq<nat>)
    requires
        node.window_bounded(),
    ensures
        node.record_all(timestamps).history == most_recent(
            node.history + timestamps,
            node.max_history,
        ),
        node.record_all(timestamps).window_bounded(),
        node.record_all(timestamps).max_history == node.max_history,
        node.record_all(timestamps).frame_id == node.frame_id,
        node.record_all(timestamps).evictable == node.evictable,
        node.history.len() + timestamps.len() >= node.max_history ==> node.record_all(
            timestamps,
        ).history.len() == node.max_history,
    decreases timestamps.len(),
{
    if timestamps.len() == 0 {
        assert(node.history + timestamps =~= node.history);
    } else {
        let next = node.record(timestamps.first());
        let rest = timestamps.drop_first();
        lemma_window_keeps_most_recent(next, rest);
        let all = node.history + timestamps;
        let appended = node.history.push(timestamps.first());
        assert(appended + rest =~= all);
        if appended.len() > node.max_history {
            assert(most_recent(appended.drop_first() + rest, node.max_history) =~= most_recent(
                all,
                node.max_history,
            ));
        }
    }
}

/// Tracks the accesses to one frame: the times of its most recent accesses, at
/// most `max_accesses` of them, and whether the frame may be evicted.
#[derive(Debug)]
pub struct LRUKNode {
    max_accesses: usize,
    history: VecDeque<Timestamp>,
    _frame_id: FrameId,
    is_evictable: bool,
}

impl View for LRUKNode {
    type V = NodeModel;

    closed spec fn view(&self) -> NodeModel {
        NodeModel {
            max_history: self.max_accesses as nat,
            history: self.history@.map_values(|timestamp: Timestamp| timestamp as nat),
            frame_id: self._frame_id,
            evictable: self.is_evictable,
        }
    }
}

impl LRUKNode {
    /// A tracker for `frame_id` that retains up to `max_accesses` access times.
    /// It starts with an empty window and is not evictable.
    pub fn new(max_accesses: usize, frame_id: FrameId) -> (node: Self)
        ensures
            node@ == NodeModel::fresh(max_accesses as nat, frame_id),
            node@.window_bounded(),
    {
        let node = LRUKNode {
            max_accesses: max_accesses,
            history: VecDeque::new(),
            _frame_id: frame_id,
            is_evictable: false,
        };
        assert(node@.history =~= Seq::empty());
        node
    }

    /// How many access times the window holds at present.
    pub fn history_length(&self) -> (length: usize)
        ensures
            length == self@.history.len(),
            self@.window_bounded() ==> length <= self@.max_history,
    {
        self.history.len()
    }

    /// The oldest access time in the window, if the window is not empty.
    pub fn front_of_history(&self) -> (front: Option<&Timestamp>)
        ensures
            match front {
                Some(timestamp) => self@.earliest() == Some(*timestamp as nat),
                None => self@.earliest() is None,
            },
    {
        if self.history.len() == 0 {
            None
        } else {
            Some(&self.history[0])
        }
    }

    /// Records an access at `timestamp`: appends it to the window and drops the
    /// oldest entry if the window has grown past its bound.
    pub fn record_history(&mut self, timestamp: Timestamp)
        ensures
            final(self)@ == old(self)@.record(timestamp as nat),
            old(self)@.window_bounded() ==> final(self)@.window_bounded(),
    {
        self.history.push_back(timestamp);
        if self.history.len() > self.max_accesses {
            self.history.pop_front();
        }
        assert(self@.history =~= old(self)@.record(timestamp as nat).history);
    }

    /// Whether the frame is a candidate for eviction.
    pub fn is_evictable(&self) -> (evictable: bool)
        ensures
            evictable == self@.evictable,
    {
        self.is_evictable
    }

    /// Sets the evictability flag and nothing else.
    pub fn set_evictable(&mut self, is_evictable: bool)
        ensures
            final(self)@ == old(self)@.with_evictable(is_evictable),
    {
        self.is_evictable = is_evictable;
    }
}

} // verus!
