//! Extension layer of a sandboxed guest-execution host: a registry of host
//! components with per-instance state, and the routing of guest output to log
//! files and to the followed diagnostic stream.

pub mod host_component;
pub mod logging;
pub mod stdio;
