//! How much an application logs.

use vstd::prelude::*;

verus! {

/// Logging configuration: whether the application logs verbosely.
#[derive(Clone, Copy, Debug, PartialEq, Eq, Structural)]
pub struct LoggingConfig {
    pub verbose: bool,
}

impl LoggingConfig {
    /// The configuration for verbose logging.
    pub fn verbose() -> (r: LoggingConfig)
        ensures
            r == (LoggingConfig { verbose: true }),
    {
        LoggingConfig { verbose: true }
    }
}

impl Default for LoggingConfig {
    /// The configuration for ordinary logging.
    fn default() -> (r: LoggingConfig)
        ensures
            r == (LoggingConfig { verbose: false }),
    {
        LoggingConfig { verbose: false }
    }
}

/// The logging configuration for a command: verbose if the command asks for
/// it, the default otherwise.
pub fn logging_config(verbose: bool) -> (r: LoggingConfig)
    ensures
        r == (LoggingConfig { verbose }),
{
    if verbose {
        LoggingConfig::verbose()
    } else {
        LoggingConfig::default()
    }
}

} // verus!
