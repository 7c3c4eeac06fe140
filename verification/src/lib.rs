//! An in-process, deterministic ledger engine over versioned, owned objects.
//!
//! The engine holds every version of every object, an index of who owns
//! what, and the record of every transaction with an index for queries. A
//! transaction is validated, executed outside the engine, and taken in:
//! its changes are derived, applied and recorded. The whole store can be
//! written to bytes and restored from them.
//!
//! Every function states what it does over the views of the values, and is
//! proved to do so. What is taken on trust is named where it stands: the
//! decoding of a number with `bcs`, the compression with `flate2`, and the
//! reading of UTF-8 text by the standard library.

pub mod base_types;
pub mod codec;
pub mod collections;
pub mod error;
pub mod object;
pub mod rpc_types;
pub mod sandbox;
mod slots;
pub mod text;
pub mod transaction;
pub mod utils;
pub mod wire;
