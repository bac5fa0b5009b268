//! Decoder for the binary change stream of the `pgoutput` logical
//! replication plugin, with the plugin configuration that requests it.
mod cursor;
pub mod error;
pub mod laws;
pub mod pgoutput;
pub mod plugin;
pub mod primitives;
pub mod raw;
pub mod wire;

pub use error::DecodeError;
pub use pgoutput::{
    BeginBody, Column, CommitBody, DeleteBody, InsertBody, LogicalReplicationMessage, OriginBody,
    RelationBody, ReplicaIdentity, TruncateBody, Tuple, TupleData, TypeBody, UpdateBody,
};
pub use plugin::{DecodingPlugin, PgOutput};
pub use raw::Raw;

use vstd::prelude::*;

verus! {

/// A position in the write-ahead log.
pub type Lsn = u64;

/// An object identifier.
pub type Oid = u32;

} // verus!
