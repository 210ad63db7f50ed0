//! A lightweight client core for a proof-of-work blockchain network that
//! scans compact block filters for watched scripts instead of downloading
//! full blocks.
//!
//! The crate holds the pure, verified heart of such a node: the translation
//! of raw peer wire messages into bounded internal events, the header chain
//! state with reorg resolution, and the filter synchronization state machine
//! that drives filter-header and filter downloads against a checkpoint.
//! Socket handling, frame decoding and logging live outside this crate and
//! hand it plain values.

pub mod chain;
pub mod sync;
pub mod translate;
pub mod types;
