//! Core of a TCP-terminating HTTP reverse proxy: request-head parsing,
//! a per-exchange state machine, a keyed pool of reusable upstream
//! connections, pipelined response ordering, bounded-buffer relaying,
//! pluggable upstream-selection policy, and graceful lifecycle control.
//!
//! All socket work lives outside this crate; the library supplies the
//! verified decisions and data handling that a driver loop executes.

pub mod engine;
pub mod errors;
pub mod flow;
pub mod http;
pub mod lifecycle;
pub mod parse;
pub mod peer;
pub mod policy;
pub mod pool;
pub mod session;
