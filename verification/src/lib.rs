//! Verified core of a desktop-app launcher: sidecar process resolution,
//! bearer-token issuing, readiness polling with exponential backoff, a
//! reference-counted wake-lock session manager, and parsing of power-state
//! utility output into a thermal classification.
//!
//! All I/O (sockets, child processes, HTTP, the clock) stays outside this
//! library; these modules hold the decisions and the parsing, each with a
//! contract.

pub mod launch;
pub mod parse;
pub mod perf;
pub mod readiness;
pub mod text;
pub mod thermal;
