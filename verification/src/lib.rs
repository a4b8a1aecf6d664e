//! Distributed build-status monitor: a shared, hash-diffed list of CI build
//! projects, kept in sync between one server and many clients over a small
//! binary datagram protocol.
//!
//! The crate holds the synchronization engine itself: the wire codec, the
//! project record and its content hash, the ordered project cache, the
//! decision logic of the two transport modes (multicast push and unicast
//! query), the volunteer write-path, and the monitor facade. Sockets,
//! threads and the CI crawler live outside; they feed datagrams and crawl
//! snapshots in and carry frames out.

pub mod cache;
pub mod codec;
pub mod crawl;
pub mod digest;
pub mod error;
pub mod monitor;
pub mod monitors;
pub mod order;
pub mod parse;
pub mod project;
pub mod transport;

use vstd::prelude::*;

verus! {

/// Protocol version spoken by this crate; receivers drop frames whose
/// version differs from their own.
pub const PROTOCOL_VERSION: u32 = 1;

} // verus!
