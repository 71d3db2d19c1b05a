//! The switch that turns diagnostic output on and off.

use vstd::prelude::*;

verus! {

/// Whether diagnostic output is printed. Printing starts enabled.
pub struct Logger {
    pub enabled: bool,
}

impl Logger {
    /// A logger with output enabled.
    pub fn new() -> (l: Logger)
        ensures
            l.enabled,
    {
        Logger { enabled: true }
    }
}

/// Turns diagnostic output on or off.
pub fn set_enabled(logger: &mut Logger, enabled: bool)
    ensures
        final(logger).enabled == enabled,
{
    logger.enabled = enabled;
}

/// Whether diagnostic output is on.
pub fn is_enabled(logger: &Logger) -> (res: bool)
    ensures
        res == logger.enabled,
{
    logger.enabled
}

} // verus!
