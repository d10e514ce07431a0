//! A verified core for serving HTTP requests: wire parsing, routing, handler
//! decisions, response encoding, and the bookkeeping of a bounded pool of
//! backing-store connections.

pub mod bytes;
pub mod config;
pub mod connection;
pub mod handlers;
pub mod http;
pub mod json;
pub mod number;
pub mod parser;
pub mod pool;
pub mod router;
pub mod store;
