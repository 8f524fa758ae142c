//! A small persistent key-value store.
//!
//! The store keeps an ordered table of string entries in memory. Every
//! command that changes the table hands back the snapshot of the whole table
//! that must replace the database file, and takes the change back where the
//! snapshot could not be made or written. Opening, reading and writing the
//! file is left to the host program, which tells the store what it found.
//!
//! - `table`: the model of the table and of the four commands, with the laws
//!   that hold of them.
//! - `kv_store`: the entries and the store.
//! - `snapshot`: the layout of a snapshot and its codec.
//! - `storage`: the path and the state of the database file.
//! - `cli`: the commands of the interactive shell and their answers.
//! - `error`: the errors.

pub mod cli;
pub mod error;
pub mod kv_store;
pub mod snapshot;
pub mod storage;
pub mod table;

pub use crate::error::StoreError;
pub use crate::kv_store::{Store, KV};
pub use crate::storage::Storage;
