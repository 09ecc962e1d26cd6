//! The errors of the gRPC server and client, and their texts.

use vstd::prelude::*;

verus! {

/// What can go wrong in gRPC traffic.
#[derive(Clone, Debug)]
pub enum GrpcError {
    Server { message: String },
    Client { message: String },
    ServiceNotFound { service_name: String },
    ConnectionFailed { message: String },
    Timeout,
}

/// The text that describes each error.
pub open spec fn grpc_error_text(e: GrpcError) -> Seq<char> {
    match e {
        GrpcError::Server { message } => "Server error: "@ + message@,
        GrpcError::Client { message } => "Client error: "@ + message@,
        GrpcError::ServiceNotFound { service_name } => "Service not found: "@ + service_name@,
        GrpcError::ConnectionFailed { message } => "Connection failed: "@ + message@,
        GrpcError::Timeout => "Request timeout"@,
    }
}

impl GrpcError {
    /// The error's text, such as "Service not found: Echo".
    pub fn to_text(&self) -> (t: String)
        ensures
            t@ == grpc_error_text(*self),
    {
        match self {
            GrpcError::Server { message } => {
                let mut t = "Server error: ".to_owned();
                t.append(message.as_str());
                t
            },
            GrpcError::Client { message } => {
                let mut t = "Client error: ".to_owned();
                t.append(message.as_str());
                t
            },
            GrpcError::ServiceNotFound { service_name } => {
                let mut t = "Service not found: ".to_owned();
                t.append(service_name.as_str());
                t
            },
            GrpcError::ConnectionFailed { message } => {
                let mut t = "Connection failed: ".to_owned();
                t.append(message.as_str());
                t
            },
            GrpcError::Timeout => "Request timeout".to_owned(),
        }
    }

    /// The text of the framework error that this error becomes:
    /// "gRPC error: " and the error's own text.
    pub fn framework_text(&self) -> (t: String)
        ensures
            t@ == "gRPC error: "@ + grpc_error_text(*self),
    {
        let inner = self.to_text();
        let mut t = "gRPC error: ".to_owned();
        t.append(inner.as_str());
        t
    }
}

} // verus!
