//! Fetch-and-cache coordination for served calendar documents: a shared
//! cache keyed by calendar identifier, the decisions of the periodic refresh
//! scheduler, and the decisions of the request handler.

pub mod cache;
pub mod config;
pub mod handler;
pub mod scheduler;
