//! A fork-aware incremental block-mapping indexer.
//!
//! Given a primary chain whose headers may embed a secondary-chain commitment
//! log, the sync engine discovers unsynced chain tips, walks each tip backward
//! until it reaches already-indexed history or the genesis block, extracts the
//! embedded commitment from each header, writes it to a mapping store, and
//! persists a tip set so that progress survives interruption.

pub mod chain;
pub mod consensus;
pub mod engine;
pub mod laws;
pub mod model;
pub mod progress;
pub mod store;
pub mod types;
