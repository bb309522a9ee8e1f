//! Execution protocol of container network plugins: the environment a plugin
//! is started with, the network configuration it reads, version negotiation,
//! command dispatch and the reply it reports.

pub mod api;
pub mod args;
pub mod cnitool;
pub mod config;
pub mod env;
pub mod error;
pub mod json;
pub mod reply;
pub mod runtime;
pub mod text;
pub mod version;
