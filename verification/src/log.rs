//! Which messages a log lets through.

use vstd::prelude::*;

verus! {

/// How much a message matters; also the least that a log lets through.
#[derive(Clone, Copy, Debug, PartialEq, Eq, Structural)]
pub enum Level {
    Trace,
    Info,
    Warn,
    Error,
}

/// Place of a level in the order from least to most important.
pub open spec fn rank(level: Level) -> nat {
    match level {
        Level::Trace => 0,
        Level::Info => 1,
        Level::Warn => 2,
        Level::Error => 3,
    }
}

/// A log that lets through what matters at least as much as its level.
#[derive(Clone, Copy, Debug)]
pub struct Log {
    level: Level,
}

impl Log {
    /// The least that the log lets through.
    pub closed spec fn level(&self) -> Level {
        self.level
    }

    pub fn new(level: Level) -> (log: Log)
        ensures
            log.level() == level,
    {
        Log { level }
    }

    pub fn set_level(&mut self, level: Level)
        ensures
            final(self).level() == level,
    {
        self.level = level;
    }

    /// Whether a message of importance `of` is let through. Errors always
    /// are.
    pub fn prints(&self, of: Level) -> (shown: bool)
        ensures
            shown == (rank(of) >= rank(self.level())),
            of == Level::Error ==> shown,
    {
        Log::place(of) >= Log::place(self.level)
    }

    fn place(level: Level) -> (at: u8)
        ensures
            at == rank(level),
    {
        match level {
            Level::Trace => 0,
            Level::Info => 1,
            Level::Warn => 2,
            Level::Error => 3,
        }
    }
}

} // verus!
