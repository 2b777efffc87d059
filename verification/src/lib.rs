//! Dispute vote coordinator: tracks disagreements among validators over the
//! validity of candidates, across a rolling window of sessions.
//!
//! The coordinator keeps one vote set per (session, candidate) pair, merges
//! incoming votes from local validation and from the network, detects when a
//! quorum of votes concludes a dispute, and decides when the local node should
//! be asked to validate a disputed candidate itself.

pub mod account;
pub mod coordinator;
pub mod laws;
pub mod statemachine;
pub mod store;
pub mod types;
pub mod window;
