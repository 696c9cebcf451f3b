//! Helpers on configured instances.

pub mod capabilities;
