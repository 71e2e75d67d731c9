use vstd::prelude::*;

verus! {

/// A value of the replacer's logical clock. It orders accesses and has nothing
/// to do with wall-clock time.
pub type Timestamp = u64;

} // verus!
