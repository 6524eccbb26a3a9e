//! An Ethereum-compatible transaction-execution and block-assembly engine.
//!
//! The crate validates signed transactions, maintains an account/code/storage
//! state backend, dispatches execution (precompiled functions directly, other
//! code through a plan handed to an external interpreter), and assembles the
//! per-block outcomes into a block with receipts, logs and bloom filters.

pub mod assembler;
pub mod bloom;
pub mod bytes;
pub mod dispatcher;
pub mod encode;
pub mod hashing;
pub mod laws;
pub mod rlp;
pub mod state;
pub mod validator;
pub mod types;
pub mod u256;
