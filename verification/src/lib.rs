//! Luanti protocol bot library.
//!
//! Wire formats, packet framing, authentication, the world model and the bot's
//! decisions live here and are verified. Sockets, clocks, threads and floating
//! point arithmetic stay with the program that drives the library.

pub mod api;
pub mod bot;
pub mod codec;
pub mod compress;
pub mod game;
pub mod json;
pub mod network;
pub mod nodedef;
pub mod numbers;
pub mod scan;
pub mod session;
pub mod text;
pub mod trace;
pub mod types;
pub mod world;
