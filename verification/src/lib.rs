//! A real-time message relay: clients hold persistent bidirectional
//! connections, and any text message sent by one client is rebroadcast to
//! every currently connected client, the sender included.
//!
//! The verified core is the connection registry and the broadcast fan-out:
//! how connections are tracked under a shared table, how a message is
//! delivered exactly once to every registered outbound queue, and how the
//! connection lifecycle (join, leave) keeps identifiers unique and the
//! table consistent. Transport, handshake and scheduling live outside the
//! library and drive it through plain values.

pub mod frame;
pub mod ids;
pub mod laws;
pub mod registry;
pub mod server;
pub mod session;
