//! Ri: lifecycle hooks, structured log context, native pointer registries and
//! the gRPC wire and retry logic, each stated and proved with Verus.

pub mod hooks;
pub mod log_context;
pub mod jni_registry;
pub mod validation_registry;
pub mod java_exception;
pub mod text;
pub mod log_level;
pub mod grpc;
pub mod log_format;
pub mod log_settings;
pub mod key_order;
pub mod log_lines;
