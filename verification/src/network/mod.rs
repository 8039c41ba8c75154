//! Luanti network protocol: transport, command encoding and decoding, and authentication.

pub mod auth;
pub mod connection;
pub mod events;
pub mod inbound;
pub mod outbound;
pub mod protocol;
pub mod srp;
pub mod wire;
