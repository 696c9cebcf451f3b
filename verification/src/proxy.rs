//! The session proxy: what it records, and where it sends what.

pub mod laws;
pub mod model_wrapper;
pub mod routes;
pub mod usage;
