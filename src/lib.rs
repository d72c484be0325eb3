//! Block-propagation ingestion core: the handlers that take headers,
//! compact blocks and full blocks from peers and decide, per message,
//! whether to accept, penalise, defer or ignore it.
//!
//! The header verifier, block reconstruction and the chain processor are
//! collaborators outside this crate: a handler takes what they concluded
//! as an argument. What a handler wants sent or done next it returns as
//! `message::Action`s, for the caller to carry out.
pub mod block_process;
pub mod cell_data_provider;
pub mod compact_block_process;
pub mod error;
pub mod headers_process;
pub mod message;
pub mod shared;
pub mod status;
pub mod types;
