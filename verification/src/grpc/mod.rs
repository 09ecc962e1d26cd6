//! gRPC support: configuration, statistics and errors, the wire framing of
//! requests and responses, and the client's retry policy.

pub mod client;
pub mod config;
pub mod error;
pub mod stats;
pub mod wire;
