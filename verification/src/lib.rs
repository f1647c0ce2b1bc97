//! Content-addressed layered filesystem store.
//!
//! Directory trees are ingested as immutable commits identified by a
//! cryptographic digest, deduplicated into a shared object store, exposed
//! through tags and mutable worktrees, and mounted through EROFS + overlayfs.
//! This crate holds the storage, addressing, composition and
//! mount-orchestration logic; the binary around it performs the actual
//! system calls and disk writes.

pub mod bytes;
pub mod commit;
pub mod errors;
pub mod fstree;
pub mod hashing;
pub mod merkle;
pub mod mountcfg;
pub mod objectdb;
pub mod patchset;
pub mod refs;
pub mod state;
pub mod store;
pub mod table;
