//! Verified core of a content-addressed file deduplication engine: the
//! decisions of scanning, grouping, vaulting, linking and restoring, and the
//! encoding of the state kept in the embedded database.

pub mod types;
pub mod paths;
pub mod vault;
pub mod scanner;
pub mod state;
pub mod batching;
pub mod pipeline;
pub mod dedupe;
pub mod restore;
pub mod tree;
pub mod hasher;
