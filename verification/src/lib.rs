//! An M-of-N multisignature governance engine.
//!
//! A fixed set of members jointly authorizes actions — delegated calls into
//! other programs and changes to the multisig's own membership or threshold —
//! by collecting at least `threshold` approving votes on a proposal before it
//! may execute. The crate provides:
//!
//! - deterministic seed derivation for the multisig's records ([`pda`]),
//! - the persistent records and the voting bookkeeping on them ([`model`]),
//! - the persisted byte layout of those records ([`codec`]),
//! - the governance operations on records ([`ops`]),
//! - account-level instruction handlers and the dispatcher ([`handlers`]),
//! - hexadecimal parsing and printing of keys and program ids ([`hexutil`]).

pub mod codec;
pub mod error;
pub mod handlers;
pub mod hexutil;
pub mod model;
pub mod ops;
pub mod pda;
