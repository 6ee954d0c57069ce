//! The library's error type.

use vstd::prelude::*;

verus! {

/// A byte range in a source text, for pointing at the place of an error.
#[derive(PartialEq, Eq, Structural, Clone, Copy, Debug)]
pub struct Span {
    pub offset: usize,
    pub len: usize,
}

/// What can go wrong while compiling, merging, watching or managing the daemon.
#[derive(Debug)]
pub enum KarabinerPklError {
    /// The evaluator is not installed.
    PklNotFound,
    /// A file could not be read; `reason` says why.
    ConfigReadError { path: String, reason: String },
    /// The evaluator rejected the configuration.
    PklCompileError { help: String, source_code: String, span: Option<Span> },
    /// Text that should be JSON is not.
    JsonParseError { reason: String },
    /// The generated document could not be written.
    KarabinerWriteError { path: String, reason: String },
    /// The evaluator's output does not have the required shape.
    ValidationError { message: String },
    /// The file watcher failed.
    WatchError { reason: String },
    /// The daemon or its process management failed.
    DaemonError { message: String },
    /// A configuration file could not be written.
    ConfigWriteError { path: String, reason: String },
}

/// The one-line description of each kind of error.
pub open spec fn summary_of(e: &KarabinerPklError) -> Seq<char> {
    match e {
        KarabinerPklError::PklNotFound => "Pkl CLI not found in PATH"@,
        KarabinerPklError::ConfigReadError { .. } => "Failed to read configuration file"@,
        KarabinerPklError::PklCompileError { .. } => "Pkl compilation failed"@,
        KarabinerPklError::JsonParseError { .. } => "Invalid JSON output from Pkl"@,
        KarabinerPklError::KarabinerWriteError { .. } => "Failed to write Karabiner configuration"@,
        KarabinerPklError::ValidationError { .. } => "Configuration validation failed"@,
        KarabinerPklError::WatchError { .. } => "File watching error"@,
        KarabinerPklError::DaemonError { .. } => "Daemon error"@,
        KarabinerPklError::ConfigWriteError { .. } => "Failed to write configuration file"@,
    }
}

impl KarabinerPklError {
    /// A one-line description of the error kind.
    pub fn summary(&self) -> (r: &'static str)
        ensures
            r@ == summary_of(self),
    {
        match self {
            KarabinerPklError::PklNotFound => "Pkl CLI not found in PATH",
            KarabinerPklError::ConfigReadError { .. } => "Failed to read configuration file",
            KarabinerPklError::PklCompileError { .. } => "Pkl compilation failed",
            KarabinerPklError::JsonParseError { .. } => "Invalid JSON output from Pkl",
            KarabinerPklError::KarabinerWriteError { .. } => "Failed to write Karabiner configuration",
            KarabinerPklError::ValidationError { .. } => "Configuration validation failed",
            KarabinerPklError::WatchError { .. } => "File watching error",
            KarabinerPklError::DaemonError { .. } => "Daemon error",
            KarabinerPklError::ConfigWriteError { .. } => "Failed to write configuration file",
        }
    }
}

} // verus!
