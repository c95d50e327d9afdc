//! The server that offers the library to a client over lines of JSON.

pub mod protocol;
pub mod server;
pub mod tools;

pub use server::McpServer;
