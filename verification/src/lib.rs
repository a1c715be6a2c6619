//! A verified core for a Model Context Protocol (MCP) runtime: a JSON-RPC 2.0
//! message model with a hand-written structural discriminator, a canonical
//! JSON text writer, tool registry and argument binding, the per-request
//! connection state machine, server dispatch, and the client session,
//! together with the framing rules of the stdio and streamable HTTP
//! transports.

pub mod client;
pub mod connection;
pub mod content;
pub mod handshake;
pub mod http;
pub mod json;
pub mod message;
pub mod parse;
pub mod payload;
pub mod schema;
pub mod server;
pub mod stdio;
pub mod text;
pub mod tool;
