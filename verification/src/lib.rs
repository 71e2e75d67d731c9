//! Frame replacement for a buffer pool: the LRU-K eviction policy behind a
//! policy-independent replacer interface.

pub mod buffer_pool;
pub mod types;
