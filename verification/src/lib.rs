//! Rendezvous and signaling library: validated usernames, a binary wire codec
//! for the protocol's messages, a presence registry keyed by username, and the
//! state machines for the authentication handshake and the connection-brokering
//! protocol that arbitrates connection requests between online users.

pub mod broker;
pub mod channels;
pub mod codec;
pub mod error;
pub mod identity;
pub mod messages;
pub mod model;
pub mod registry;
