//! The LRU-K policy: evict the frame whose k-th most recent access lies
//! furthest in the past.

pub mod common;
pub mod laws;
pub mod lru_k_node;
pub mod lru_k_replacer;
pub mod model;
