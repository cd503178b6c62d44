//! A verified library for PS5 payloads: a minimal HTTP/1.1 server core and
//! the decisions of safe wrappers over the SDK's file, socket, thread and
//! Sony HTTP/2 client APIs.
//!
//! ## Modules
//! - [`request`], [`reader`], [`response`], [`server`]: the HTTP/1.1 server:
//!   request parsing (as a state machine fed by socket reads), response
//!   building and encoding, server settings and per-connection decisions.
//! - [`error`]: the shared error type.
//! - [`fs`], [`net`], [`thread`], [`http`]: open flags, C paths, seek and
//!   write progress, directory entries, socket addresses, DNS results,
//!   thread-creation call sequences, and the SCE client's init chain and
//!   request exchange.
//! - [`util`], [`text`]: C strings, libc result mapping, and character-level
//!   text utilities.
pub mod error;
pub mod fs;
pub mod http;
pub mod net;
pub mod reader;
pub mod request;
pub mod response;
pub mod server;
pub mod text;
pub mod thread;
pub mod util;
