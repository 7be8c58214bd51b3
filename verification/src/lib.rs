//! Core logic of an HTTP/HTTPS forward proxy with reverse-proxy and
//! static-content routing: request dispatch, authentication, reverse-proxy
//! rule selection and rewriting, connection idle tracking, TLS hot reload
//! and per-stream byte accounting.
//!
//! Everything here works on plain values (strings, integers, vectors); the
//! network engine around it converts to and from these values, performs the
//! I/O, and follows the decisions made here.

use vstd::prelude::*;

pub mod auth;
pub mod config;
pub mod lifecycle;
pub mod metrics;
pub mod outside;
pub mod proxy;
pub mod request;
pub mod reverse;
pub mod strutil;
pub mod tls;

verus! {

/// Seconds a connection may sit without inbound activity before the
/// supervisor shuts it down; the CONNECT tunnel uses the same bound for
/// its own stream-level idle timer.
pub const IDLE_TIMEOUT_SECS: u64 = 120;

/// Seconds between reloads of the TLS certificate and key.
pub const REFRESH_INTERVAL_SECS: u64 = 3600;

/// Seconds the reverse-proxy upstream stream may sit without progress.
pub const REVERSE_UPSTREAM_TIMEOUT_SECS: u64 = 60;

} // verus!
