//! gRPC server configuration.

use vstd::prelude::*;

verus! {

/// Where a gRPC server listens and how it is secured.
#[derive(Clone, Debug)]
pub struct DMSCGrpcConfig {
    pub addr: String,
    pub port: u16,
    pub max_concurrent_requests: u32,
    pub enable_tls: bool,
    pub cert_path: Option<String>,
    pub key_path: Option<String>,
}

impl Default for DMSCGrpcConfig {
    /// Listens on 127.0.0.1:50051, 100 concurrent requests, no TLS.
    fn default() -> (c: Self)
        ensures
            c.addr@ == "127.0.0.1"@,
            c.port == 50051,
            c.max_concurrent_requests == 100,
            !c.enable_tls,
            c.cert_path is None,
            c.key_path is None,
    {
        DMSCGrpcConfig {
            addr: "127.0.0.1".to_owned(),
            port: 50051,
            max_concurrent_requests: 100,
            enable_tls: false,
            cert_path: None,
            key_path: None,
        }
    }
}

} // verus!
