use crate::buffer_pool::common::FrameId;
use crate::types::CrabDbResult;
use responses::{
    EvictionResponse, RecordAccessResponse, RemoveResponse, ReplacerSizeResponse,
    SetEvictableResponse,
};
use vstd::prelude::*;

pub mod responses;

verus! {

/// The keys of `frames` whose flag is set.
pub open spec fn flagged(frames: Map<FrameId, bool>) -> Set<FrameId> {
    frames.dom().filter(|frame_id: FrameId| frames[frame_id])
}

/// What a buffer pool asks of an eviction policy. A replacer holds a bounded
/// set of frames, each with a flag that says whether the frame may be evicted,
/// and picks the frame to reclaim among those that may. Which frame it picks
/// is the policy's own business; what the five operations do to the set of
/// frames and their flags is fixed here.
pub trait Replacer {
    /// The replacer's state is consistent. Constructors establish this and
    /// every operation keeps it.
    spec fn wf(&self) -> bool;

    /// The frames that the replacer holds, each with its evictability flag.
    spec fn frames(&self) -> Map<FrameId, bool>;

    /// How many frames the replacer holds at most.
    spec fn capacity(&self) -> nat;

    /// The replacer's bookkeeping has room for one more access. This is a
    /// limit of the machine's integers, not of the capacity.
    spec fn can_record(&self) -> bool;

    /// Picks a victim among the evictable frames and drops it from the
    /// replacer. Returns the victim, or `None` if no frame is evictable, in
    /// which case nothing changes. Never fails.
    fn evict(&mut self) -> (response: CrabDbResult<EvictionResponse>)
        requires
            old(self).wf(),
        ensures
            final(self).wf(),
            final(self).capacity() == old(self).capacity(),
            final(self).can_record() == old(self).can_record(),
            match response {
                Ok(eviction) => match eviction.frame_id() {
                    Some(victim) => {
                        &&& flagged(old(self).frames()).contains(victim)
                        &&& final(self).frames() == old(self).frames().remove(victim)
                    },
                    None => {
                        &&& flagged(old(self).frames()).is_empty()
                        &&& final(self).frames() == old(self).frames()
                    },
                },
                Err(_) => false,
            },
    ;

    /// Records an access to the frame. A frame that the replacer does not hold
    /// yet is taken in, not evictable, if there is room for it; if there is
    /// none the call fails and nothing changes.
    fn record_access(&mut self, frame_id: FrameId) -> (response: CrabDbResult<
        RecordAccessResponse,
    >)
        requires
            old(self).wf(),
            old(self).can_record(),
        ensures
            final(self).wf(),
            final(self).capacity() == old(self).capacity(),
            response is Ok <==> old(self).frames().contains_key(frame_id) || old(
                self,
            ).frames().len() < old(self).capacity(),
            final(self).frames() == if response is Err {
                old(self).frames()
            } else if old(self).frames().contains_key(frame_id) {
                old(self).frames()
            } else {
                old(self).frames().insert(frame_id, false)
            },
    ;

    /// Drops the frame from the replacer. Fails, and changes nothing, unless
    /// the replacer holds the frame and the frame is evictable.
    fn remove(&mut self, frame_id: FrameId) -> (response: CrabDbResult<RemoveResponse>)
        requires
            old(self).wf(),
        ensures
            final(self).wf(),
            final(self).capacity() == old(self).capacity(),
            final(self).can_record() == old(self).can_record(),
            response is Ok <==> flagged(old(self).frames()).contains(frame_id),
            final(self).frames() == if response is Ok {
                old(self).frames().remove(frame_id)
            } else {
                old(self).frames()
            },
    ;

    /// Sets the frame's evictability flag. Fails, and changes nothing, unless
    /// the replacer holds the frame.
    fn set_evictable(&mut self, frame_id: FrameId, set_evictable: bool) -> (response:
        CrabDbResult<SetEvictableResponse>)
        requires
            old(self).wf(),
        ensures
            final(self).wf(),
            final(self).capacity() == old(self).capacity(),
            final(self).can_record() == old(self).can_record(),
            response is Ok <==> old(self).frames().contains_key(frame_id),
            final(self).frames() == if response is Ok {
                old(self).frames().insert(frame_id, set_evictable)
            } else {
                old(self).frames()
            },
    ;

    /// The number of evictable frames. Never fails.
    fn size(&self) -> (response: CrabDbResult<ReplacerSizeResponse>)
        requires
            self.wf(),
        ensures
            match response {
                Ok(size) => size.num_evictable_frames() == flagged(self.frames()).len(),
                Err(_) => false,
            },
    ;
}

} // verus!
