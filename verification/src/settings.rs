//! Plain-value settings the command layer hands the backends, and the
//! parsing of the configured verbosity name.

use vstd::prelude::*;

verus! {

/// AWS-related settings: an optional profile name and the region.
pub struct AwsSettings {
    pub profile: Option<String>,
    pub region: String,
}

/// The log verbosity levels a configuration can name.
#[derive(Clone, Copy, Debug, PartialEq, Eq, Structural)]
pub enum LogVerbosity {
    Error,
    Warn,
    Info,
    Debug,
    Trace,
}

/// The verbosity a configured name selects; an unknown name falls back to
/// errors only.
pub open spec fn verbosity_of(name: Seq<char>) -> LogVerbosity {
    if name == "error"@ {
        LogVerbosity::Error
    } else if name == "warn"@ {
        LogVerbosity::Warn
    } else if name == "info"@ {
        LogVerbosity::Info
    } else if name == "debug"@ {
        LogVerbosity::Debug
    } else if name == "trace"@ {
        LogVerbosity::Trace
    } else {
        LogVerbosity::Error
    }
}

/// Parses the configured verbosity name, falling back to errors only.
pub fn parse_verbosity(name: &String) -> (r: LogVerbosity)
    ensures
        r == verbosity_of(name@),
{
    if name.eq(&"error".to_owned()) {
        LogVerbosity::Error
    } else if name.eq(&"warn".to_owned()) {
        LogVerbosity::Warn
    } else if name.eq(&"info".to_owned()) {
        LogVerbosity::Info
    } else if name.eq(&"debug".to_owned()) {
        LogVerbosity::Debug
    } else if name.eq(&"trace".to_owned()) {
        LogVerbosity::Trace
    } else {
        LogVerbosity::Error
    }
}

} // verus!
