//! Verified core of a TCP tunnel: the byte codec used on tunnelled streams,
//! the tunnel messages, the port pool of the relay server, the connection
//! registries kept on both ends, and the decisions that the server session
//! and the client gateway take on each event.

pub mod models;
pub mod buffer;
pub mod codec;
pub mod text;
pub mod registry;
pub mod session;
pub mod gateway;
pub mod config;
pub mod cli;
