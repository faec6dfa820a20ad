//! A small HTTP/1.1 server, bounded everywhere a peer can push.
//!
//! Nothing is allocated on a peer's say-so, a body is never read past its
//! ceiling, and the number of live connections is capped. What is here decides;
//! moving bytes between these decisions and a socket is left to the caller.

pub mod body;
pub mod chunks;
pub mod connection;
pub mod head;
pub mod heads;
pub mod response;
pub mod wire;
