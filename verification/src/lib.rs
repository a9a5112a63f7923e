//! Decision core of a gRPC / gRPC-Web reverse proxy.
//!
//! The crate holds the rules of the proxy as verified functions on plain
//! values: request classification, header rewriting, the gRPC-Web terminal
//! frame, the forwarding session, configuration reload and the listener
//! lifecycle. Sockets, tasks and timers live with the caller.

pub mod config;
pub mod forward;
pub mod grpc_kind;
pub mod headers;
pub mod metrics;
pub mod proxy;
mod text;
pub mod trailers;
pub mod uri;
