//! Control plane of a self-hosted reverse relay.
//!
//! A relay server publishes services that run on other machines. This crate
//! holds the rules of both ends: the framing of control messages, the service
//! directory and its port leases, tokens and sessions, the control API, the
//! ingress rules and the client's connection logic. Sockets, files and the
//! database belong to the programs around it.

pub mod text;
pub mod metadata;
pub mod ids;
pub mod model;
pub mod codec;
pub mod frame;
pub mod token;
pub mod table;
pub mod state;
pub mod relay;
pub mod session;
pub mod stream;
pub mod headers;
pub mod ingress;
pub mod api;
pub mod config;
pub mod tls;
pub mod store;
pub mod identity;
pub mod client;
