//! Real-time relay for a translating chat: the registry of live sessions,
//! the handshake that admits a session, the wire events, and the per-event
//! delivery protocol (authorization, translation quota, receipt, fan-out).
//! Everything that waits on a socket, a database or a web service is driven
//! from outside through plain values.

pub mod ids;
pub mod protocol;
pub mod delivery;
pub mod registry;
pub mod handshake;
pub mod config;
pub mod adapters;
pub mod domain;
