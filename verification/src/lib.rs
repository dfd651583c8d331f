//! Core logic of a real-time event relay for a multiplayer session server.
//!
//! Clients connect over a persistent bidirectional text transport and
//! exchange JSON command envelopes.  This crate holds the verified core:
//! connection numbering, the broadcast filter, the wire-envelope codec,
//! and the session/identity state machine that lets a logical player
//! survive a transport reconnect.  The transport itself (sockets, tasks)
//! lives outside the crate and drives these functions.

pub mod registry;
pub mod text;
pub mod codec;
pub mod stores;
pub mod rooms;
pub mod session;
