//! Tool scripts: the invocation protocol, the registry and execution.

pub mod protocol;
pub mod registry;
pub mod executor;
