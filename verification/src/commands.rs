//! What the commands decide and show.

pub mod hardware;
pub mod remediation;
