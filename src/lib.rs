//! A backup and restore engine for a managed directory, such as a game
//! server's working tree: it packs chosen top-level folders into archives,
//! keeps a ledger of them, rotates old ones out, and restores one only after
//! taking a safety snapshot of what it is about to replace.
//!
//! Every function here is verified. Filesystem access, compression and
//! persistence are done by the caller around these functions, which take and
//! return plain values.
use vstd::prelude::*;

pub mod archive;
pub mod clock;
pub mod engine;
pub mod exclude;
pub mod folders;
pub mod java;
pub mod ledger;
pub mod numbers;
pub mod order;
pub mod rotation;
pub mod stats;
pub mod storage;
pub mod tail;
pub mod text;

verus! {

} // verus!
