//! A minimal proof-of-work ledger: blocks chained by their SHA-256 digests,
//! a chain that grows by mining and is replaced only by a strictly longer
//! chain that validates, and a node that owns one chain and a set of peers.
//!
//! Every function is verified against a contract stated over the views of
//! the data types. The few calls that are taken on trust stand behind
//! wrappers in [`digest`], [`text`] and the module that reads the clock,
//! each with a doc comment that says what is claimed of it.

pub mod balance;
pub mod block;
pub mod blockchain;
pub mod chain_lemmas;
mod clock;
pub mod digest;
pub mod errors;
pub mod node;
pub mod peers;
pub mod propagation;
pub mod text;
pub mod transaction;
