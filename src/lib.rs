//! A flat-file key-value store: each value lives in a file of its own, in a
//! directory that a sharding strategy picks from the key. This crate holds the
//! store's decisions (key rules, paths, the root's descriptor, the order of
//! filesystem calls and their retries); the caller makes the calls.
use vstd::prelude::*;

pub mod error;
pub mod flatfs;
pub mod model;
pub mod retry;
pub mod shard;
pub mod text;

verus! {

} // verus!
