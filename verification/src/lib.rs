//! A small HTTP server and its command-line client: request parsing,
//! routing, SQL statement planning and response framing.
pub mod text;
pub mod error;
pub mod interface;
pub mod codec;
pub mod server;
pub mod template;
pub mod cli;
pub mod balancer;
pub mod laws;
