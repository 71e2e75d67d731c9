use vstd::prelude::*;

verus! {

/// Identifies one frame of the buffer pool. The caller chooses the values; they
/// are only ever compared and hashed.
pub type FrameId = usize;

} // verus!
