//! Verified core of a small HTTP gateway that serves country-level
//! epidemiological statistics: the record model, the threshold filter
//! engine, query-parameter parsing, and the handler decision logic.
//!
//! Everything that touches the network (the upstream fetch, the HTTP
//! server) lives outside this crate and hands plain values in and out.

pub mod filter;
pub mod handler;
pub mod model;
pub mod query;
