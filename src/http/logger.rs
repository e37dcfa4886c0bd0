//! Severity levels of the server's log, and which messages it shows.

use vstd::prelude::*;

verus! {

/// The severity of a log message.
#[derive(Debug, Clone, Copy, PartialEq, Eq, Structural)]
pub enum Level {
    Error,
    Warn,
    Info,
    Debug,
}

impl Level {
    /// The tag a message of this level starts with, coloured for a terminal.
    pub fn label(&self) -> (r: &'static str)
        ensures
            r@ == match *self {
                Level::Error => "\x1b[1;31m[ERROR]\x1b[0m"@,
                Level::Warn => "\x1b[1;33m[WARN]\x1b[0m"@,
                Level::Info => "\x1b[0;32m[INFO]\x1b[0m"@,
                Level::Debug => "\x1b[0;36m[DEBUG]\x1b[0m"@,
            },
    {
        match self {
            Level::Error => "\x1b[1;31m[ERROR]\x1b[0m",
            Level::Warn => "\x1b[1;33m[WARN]\x1b[0m",
            Level::Info => "\x1b[0;32m[INFO]\x1b[0m",
            Level::Debug => "\x1b[0;36m[DEBUG]\x1b[0m",
        }
    }

    /// Whether a message of this level is shown: debug messages only when verbose.
    pub fn shown(&self, verbose: bool) -> (r: bool)
        ensures
            r == (*self != Level::Debug || verbose),
    {
        match self {
            Level::Debug => verbose,
            _ => true,
        }
    }
}

} // verus!
