//! The HTTP interface through which the bot is commanded.

pub mod http;
pub mod routes;
