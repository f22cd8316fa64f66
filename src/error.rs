use vstd::prelude::*;

use crate::shard::Shard;

verus! {

/// How an underlying filesystem call failed, as far as the store tells failures apart.
#[derive(Debug, Clone, Copy, PartialEq, Eq, Structural)]
pub enum IoKind {
    NotFound,
    AlreadyExists,
    Other,
}

/// The errors of the store.
#[derive(Debug, Clone, PartialEq, Eq)]
pub enum FlatfsError {
    /// The key is shorter than two characters, is not ASCII, or holds a `/`.
    InvalidKey,
    /// The root holds a descriptor of another sharding strategy than the requested one.
    ShardMismatch { requested: Shard, found: Shard },
    /// The root's descriptor file could not be read as a sharding strategy.
    BadDescriptor,
    /// A filesystem call on `path` failed, after all the attempts it was given.
    Io { kind: IoKind, path: String },
}

} // verus!
