//! Severity levels of the logging facility, and which messages a threshold lets through.

use vstd::prelude::*;

verus! {

/// The severity of a log message, from the most to the least severe.
#[derive(Debug, Clone, Copy, PartialEq, Eq, PartialOrd, Ord, Structural)]
pub enum Level {
    Error,
    Warn,
    Info,
    Debug,
}

/// The position of a level, from 0 for `Error` to 3 for `Debug`.
pub open spec fn level_rank(l: Level) -> nat {
    match l {
        Level::Error => 0,
        Level::Warn => 1,
        Level::Info => 2,
        Level::Debug => 3,
    }
}

impl Level {
    pub fn rank(&self) -> (r: u8)
        ensures
            r as nat == level_rank(*self),
    {
        match self {
            Level::Error => 0,
            Level::Warn => 1,
            Level::Info => 2,
            Level::Debug => 3,
        }
    }

    /// The tag a message of this level starts with, coloured for a terminal.
    pub fn label(&self) -> (r: &'static str)
        ensures
            r@ == match *self {
                Level::Error => "\x1b[1;31m[ERROR]\x1b[0m"@,
                Level::Warn => "\x1b[1;33m[WARN]\x1b[0m"@,
                Level::Info => "\x1b[0;32m[INFO]\x1b[0m"@,
                Level::Debug => "\x1b[0;36m[DEBUG]\x1b[0m"@,
            },
    {
        match self {
            Level::Error => "\x1b[1;31m[ERROR]\x1b[0m",
            Level::Warn => "\x1b[1;33m[WARN]\x1b[0m",
            Level::Info => "\x1b[0;32m[INFO]\x1b[0m",
            Level::Debug => "\x1b[0;36m[DEBUG]\x1b[0m",
        }
    }

    /// Whether a message of this level is shown when the threshold is `threshold`:
    /// it is when it is at least as severe.
    pub fn enabled(&self, threshold: Level) -> (r: bool)
        ensures
            r == (level_rank(*self) <= level_rank(threshold)),
    {
        self.rank() <= threshold.rank()
    }
}

} // verus!
