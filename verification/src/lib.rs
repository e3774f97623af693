//! Signaling and room-coordination core of a small multi-user virtual
//! hangout service.
//!
//! Clients connect over a persistent bidirectional text channel, are
//! assigned to a themed room based on a declared activity, and exchange
//! presence, chat and movement events while a Selective Forwarding Unit
//! (SFU) relays their media. This crate holds the verified core: the
//! activity router, room membership and the publisher index, the room
//! registry, the per-connection session state machine, and the ICE
//! configuration logic. The asynchronous edges (the socket, the SFU
//! engine, the TURN credential service) live outside and drive this
//! core with plain values.

pub mod activity;
pub mod ice;
pub mod media;
pub mod membership;
pub mod player;
pub mod protocol;
pub mod registry;
pub mod session;
pub mod room;
pub mod strings;
pub mod turn;
