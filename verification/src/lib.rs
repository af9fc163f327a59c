//! Verified core of an oRPC implementation: route metadata, error codes,
//! the wire-level JSON envelope logic, meta reconstruction, path routing,
//! and server-sent event framing.

pub mod route;
pub mod json;
pub mod text;
pub mod error;
pub mod procedure_error;
pub mod meta;
pub mod json_text;
pub mod file;
pub mod router;
pub mod openapi;
pub mod rpc;
pub mod sse;
pub mod client_sse;
pub mod rpc_link;
pub mod schema;
pub mod contract;
pub mod service;
pub mod ipc;
