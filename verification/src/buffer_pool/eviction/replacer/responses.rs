use crate::buffer_pool::common::FrameId;
use vstd::prelude::*;

verus! {

/// The answer to a recorded access. It carries nothing.
#[derive(Debug)]
pub struct RecordAccessResponse {}

/// The answer to a removal. It carries nothing.
#[derive(Debug)]
pub struct RemoveResponse {}

/// The answer to a change of evictability. It carries nothing.
#[derive(Debug)]
pub struct SetEvictableResponse {}

/// The answer to an eviction request: the frame that was evicted, if there was
/// one to evict.
#[derive(Debug)]
pub struct EvictionResponse {
    frame_id: Option<FrameId>,
}

impl EvictionResponse {
    /// What `frame_id` returns, for use in contracts.
    pub closed spec fn spec_frame_id(&self) -> Option<FrameId> {
        self.frame_id
    }

    pub fn new(frame_id: Option<FrameId>) -> (response: Self)
        ensures
            response.frame_id() == frame_id,
    {
        EvictionResponse { frame_id }
    }

    /// The evicted frame, or `None` if no frame was evictable.
    #[verifier::when_used_as_spec(spec_frame_id)]
    pub fn frame_id(&self) -> (frame_id: Option<FrameId>)
        ensures
            frame_id == self.frame_id(),
    {
        self.frame_id
    }
}

/// The answer to a size request: how many frames are evictable.
#[derive(Debug)]
pub struct ReplacerSizeResponse {
    pub(crate) num_evictable_frames: usize,
}

impl ReplacerSizeResponse {
    /// What `num_evictable_frames` returns, for use in contracts.
    pub closed spec fn spec_num_evictable_frames(&self) -> usize {
        self.num_evictable_frames
    }

    pub(crate) fn new(num_evictable_frames: usize) -> (response: Self)
        ensures
            response.num_evictable_frames() == num_evictable_frames,
    {
        ReplacerSizeResponse { num_evictable_frames }
    }

    /// The number of evictable frames.
    #[verifier::when_used_as_spec(spec_num_evictable_frames)]
    pub fn num_evictable_frames(&self) -> (count: usize)
        ensures
            count == self.num_evictable_frames(),
    {
        self.num_evictable_frames
    }
}

} // verus!
