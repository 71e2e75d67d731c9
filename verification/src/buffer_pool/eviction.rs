//! Eviction policies: which frame to reclaim when the pool needs room.

pub mod lru_k;
pub mod replacer;
