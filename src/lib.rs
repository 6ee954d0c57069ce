//! Supervisor library for compiling a declarative keyboard configuration into the
//! multi-profile JSON document read by a key-remapping daemon.

pub mod cli;
pub mod compiler;
pub mod daemon;
pub mod diagnostic;
pub mod error;
pub mod import;
pub mod json;
pub mod lifecycle;
pub mod merge;
pub mod notifications;
pub mod text;
