//! The command layer's decisions: which subcommand runs, which backend the
//! arguments and settings select, and whether a progress spinner is shown.

use vstd::prelude::*;
use crate::settings::LogVerbosity;

verus! {

/// The subcommands the command line accepts.
#[derive(Clone, Copy, Debug, PartialEq, Eq, Structural)]
pub enum AiCliCommands {
    /// Prints the settings, arguments, and the log verbosity.
    Config,
    /// Generates a response from the prompt.
    Generate,
}

/// The two backends a prompt can be sent to.
#[derive(Clone, Copy, Debug, PartialEq, Eq, Structural)]
pub enum BackendKind {
    Bedrock,
    Local,
}

/// The backend a name selects, if the name is known.
pub open spec fn backend_of(name: Seq<char>) -> Option<BackendKind> {
    if name == "bedrock"@ {
        Some(BackendKind::Bedrock)
    } else if name == "local"@ {
        Some(BackendKind::Local)
    } else {
        None
    }
}

/// Selects the backend: a command-line argument wins over the settings
/// default; an unknown name selects nothing and the caller reports it.
pub fn choose_backend(arg: &Option<String>, default_backend: &String) -> (r: Option<BackendKind>)
    ensures
        r == backend_of(
            match arg {
                Some(s) => s@,
                None => default_backend@,
            },
        ),
{
    let name: &String = match arg {
        Some(s) => s,
        None => default_backend,
    };
    if name.eq(&"bedrock".to_owned()) {
        Some(BackendKind::Bedrock)
    } else if name.eq(&"local".to_owned()) {
        Some(BackendKind::Local)
    } else {
        None
    }
}

/// Whether the progress spinner is shown: only below the Info verbosity,
/// so that log lines and the spinner never interleave.
pub fn show_spinner(level: LogVerbosity) -> (r: bool)
    ensures
        r == (level == LogVerbosity::Error || level == LogVerbosity::Warn),
{
    match level {
        LogVerbosity::Error => true,
        LogVerbosity::Warn => true,
        _ => false,
    }
}

} // verus!
