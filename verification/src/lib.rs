//! A request/response service over datagrams: the wire protocol, the command
//! dispatcher and the decisions of the serving loop.
//!
//! A client sends a short text command in a datagram.  The server decodes
//! it into a [`handler::Request`], the dispatcher maps the request to a
//! [`handler::Response`] with the help of a key/value store, and the
//! response goes back as one line, `code:description:body`.
//!
//! Nothing here waits, sends or reads a file.  The serving loop hands each
//! datagram to [`server::Server::receive`] and does what it is told: stop,
//! send a reply, or have the store perform a call and send the reply that
//! [`server::Server::complete`] makes of its answer.  What a store is
//! expected to answer is stated in [`store`], and what then holds of the
//! service as a whole in [`laws`] and [`history`].

use vstd::prelude::*;

pub mod client;
pub mod clock;
pub mod config;
pub mod decimal;
pub mod handler;
pub mod history;
pub mod laws;
pub mod parsers;
pub mod server;
pub mod store;
pub mod text;

verus! {

/// The version of the service.
pub const VERSION: &'static str = "0.4.0";

/// The name of the file that holds the process id while the service runs.
pub const SERVER_PID_FILE: &'static str = "udp-service.pid";

} // verus!
