//! Core of a bitcoin-anchored "spaces" wallet node: JSON-RPC request
//! construction with retry scheduling, a block-ingestion pipeline that emits
//! blocks in strict height order while detecting reorganizations, fee-message
//! heuristics, recipient resolution against a state snapshot, wallet balance
//! accounting, and a batch transaction builder with per-transaction broadcast
//! diagnostics.
//!
//! All chain state, wallet state and remote replies are held as plain values;
//! the HTTP transport, thread pools and the descriptor wallet live outside
//! this crate and drive it through the step functions exposed here.

pub mod batch;
pub mod chain;
pub mod encoding;
pub mod fees;
pub mod fetcher;
pub mod resolver;
pub mod rpc;
pub mod state;
pub mod sync;
pub mod wallet;
