//! The buffer pool's frame bookkeeping.

pub mod common;
pub mod eviction;
