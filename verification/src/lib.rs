//! Peer-local, eventually-consistent chat state replicated over a
//! publish/subscribe network.
//!
//! The crate verifies the state replication and synchronization engine:
//! the bounded history log, the message envelope, the replicated state
//! store with its merge algorithm, the action/key binding table, and the
//! dispatch rules that route inbound events to state mutations and
//! outbound envelopes.

pub mod action;
pub mod chat;
pub mod history;
pub mod inputs;
pub mod participants;
pub mod state;
