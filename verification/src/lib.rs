//! Carries the bridge lines of a Tor bridge list into the `bridges.bridges`
//! field of an Arti configuration document, and asks running Arti processes
//! to reload it.

pub mod bridges;
pub mod config;
pub mod plan;
pub mod process;
pub mod reload;
pub mod stamp;
pub mod text;
