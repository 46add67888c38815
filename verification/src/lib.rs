//! A columnar block storage core: a mutable, sorted staging area for
//! (prefix, key) -> value pairs that is finalized into an immutable,
//! shared columnar array.

pub mod sizing;
pub mod key;
pub mod tracker;
pub mod storage;
pub mod delta;
pub mod values;
pub mod block;
pub mod fetch_segment;
