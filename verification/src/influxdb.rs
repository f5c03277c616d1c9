//! Typed query parameters and query templates for the time-series database.

pub mod client;
pub mod flux_query;
pub mod flux_value;
