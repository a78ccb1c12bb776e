//! A minimal replicated ledger: a chain of hash-linked blocks with
//! proof-of-work, a pool of pending transactions, and a longest-valid-chain
//! rule for reconciling with peers.
//!
//! Every function states its behaviour over the mathematical view of the
//! ledger, and Verus proves what is stated.
pub mod block;
pub mod canonical;
pub mod chain;
pub mod client;
pub mod clock;
pub mod digest;
pub mod error;
pub mod laws;
pub mod node;
pub mod replication;
pub mod text;
pub mod wire;
