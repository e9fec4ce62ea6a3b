//! A minimal single-node ledger: blocks of transactions are checked against a
//! proof-of-work and value-conservation ruleset before they are committed to
//! the set of unspent transaction outputs.
//!
//! `validation` states the check phase and the commit phase over mathematical
//! values; `node` holds the executable state and is proved to follow them;
//! `laws` proves conservation, the absence of phantom spends and the
//! atomicity of rejection.
pub mod block;
pub mod constants;
pub mod encoding;
pub mod counter;
pub mod key_registry;
pub mod laws;
pub mod node;
pub mod node_error;
pub mod transaction;
pub mod validation;
