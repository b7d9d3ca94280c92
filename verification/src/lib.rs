//! A minimal, embeddable HTTP/1.1 and WebSocket server core.
//!
//! Everything here works on plain values: byte buffers go in, parsed messages,
//! decisions and byte buffers come out. Reading from and writing to a connection
//! is left to the caller.

pub mod compress;
pub mod http;
pub mod io;
pub mod middleware;
pub mod server;
pub mod service;
pub mod websocket;
