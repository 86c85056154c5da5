//! A synthetic, read-only filesystem core that presents a filtered view of
//! a host directory: only immediate children that are regular files and
//! whose name matches a configured pattern are visible, as a flat tree.
//!
//! The crate holds the driver's verified core: the inode table built once at
//! mount time, and the pure request handlers (lookup, getattr, read,
//! readdir) answered from it. All I/O — scanning the host directory,
//! querying file sizes, reading file bytes, and the mount transport — is
//! the embedding program's business; it hands the results in as plain
//! values.

pub mod filter;
pub mod names;
pub mod table;
pub mod attr;
pub mod handlers;
pub mod laws;
