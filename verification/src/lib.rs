//! Verified core of the granite command line.

pub mod capabilities;
pub mod catalog;
pub mod commands;
pub mod config;
pub mod json;
pub mod launchers;
pub mod models;
pub mod name_map;
pub mod providers;
pub mod proxy;
pub mod registry;
pub mod session;
mod shared;
pub mod sources;
pub mod text;
pub mod utils;
