//! Core of an allowlisted JSON-RPC reverse proxy.
//!
//! The library holds everything about a request that can be decided from
//! plain values: whether the requested upstream target matches a configured
//! allow pattern, whether the body is structurally valid JSON-RPC, whether
//! the method is permitted, how the outbound request is built, and how every
//! outcome of the actual network send maps to the reply the caller sees.
//! The network itself (the HTTP server and the anonymising transport) stays
//! outside; it hands this library bytes and takes bytes back.

pub mod json;

pub mod pattern;

pub mod pipeline;

pub mod rpc;

pub mod transport;
