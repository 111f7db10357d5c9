//! Which messages are logged.

use crate::config::Config;
use vstd::prelude::*;

verus! {

/// The most verbose level of message that is logged.
#[derive(Clone, Copy, Debug, PartialEq, Eq, Structural)]
pub enum LevelFilter {
    /// Nothing is logged.
    Off,
    /// Errors only.
    Error,
    /// Warnings and errors.
    Warn,
    /// Informational messages and above.
    Info,
    /// Debug messages and above.
    Debug,
    /// Everything.
    Trace,
}

/// The level used where no configuration asks for another.
pub open spec fn default_level() -> LevelFilter {
    LevelFilter::Info
}

/// The level that a configuration asks for: tracing wins over verbosity.
pub open spec fn level_for(trace: bool, verbose: bool) -> LevelFilter {
    if trace {
        LevelFilter::Trace
    } else if verbose {
        LevelFilter::Debug
    } else {
        default_level()
    }
}

/// The level at which logging starts before any configuration is known.
pub fn default_log_level() -> (r: LevelFilter)
    ensures
        r == default_level(),
{
    LevelFilter::Info
}

/// The level at which logging runs under a configuration.
pub fn log_level_filter(config: &Config) -> (r: LevelFilter)
    ensures
        r == level_for(config.trace, config.verbose),
{
    if config.trace {
        LevelFilter::Trace
    } else if config.verbose {
        LevelFilter::Debug
    } else {
        default_log_level()
    }
}

} // verus!
