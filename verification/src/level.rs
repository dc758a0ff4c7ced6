//! Severities and per-node severity filters.

use vstd::prelude::*;

verus! {

/// Severity of one log record, least severe first.
#[derive(Clone, Copy, Debug, PartialEq, Eq, Structural)]
pub enum Level {
    Trace,
    Debug,
    Info,
    Warn,
    Error,
}

/// Minimum severity a record needs to pass a dispatch node.
///
/// `Trace` passes everything (the default for a fresh node); `Off` passes
/// nothing.
#[derive(Clone, Copy, Debug, PartialEq, Eq, Structural)]
pub enum LevelFilter {
    Off,
    Error,
    Warn,
    Info,
    Debug,
    Trace,
}

/// Numeric rank of a severity: `Trace` is 0, `Error` is 4.
pub open spec fn severity(l: Level) -> int {
    match l {
        Level::Trace => 0,
        Level::Debug => 1,
        Level::Info => 2,
        Level::Warn => 3,
        Level::Error => 4,
    }
}

/// Least severity rank a filter lets through; 5 means nothing passes.
pub open spec fn filter_floor(f: LevelFilter) -> int {
    match f {
        LevelFilter::Trace => 0,
        LevelFilter::Debug => 1,
        LevelFilter::Info => 2,
        LevelFilter::Warn => 3,
        LevelFilter::Error => 4,
        LevelFilter::Off => 5,
    }
}

/// A record of severity `l` passes a node whose filter is `f` exactly when
/// `l` is at least as severe as the filter's floor.
pub open spec fn filter_passes(f: LevelFilter, l: Level) -> bool {
    severity(l) >= filter_floor(f)
}

impl Level {
    /// Numeric rank of this severity, as executable code.
    pub fn rank(self) -> (r: u8)
        ensures
            r as int == severity(self),
    {
        match self {
            Level::Trace => 0,
            Level::Debug => 1,
            Level::Info => 2,
            Level::Warn => 3,
            Level::Error => 4,
        }
    }
}

impl LevelFilter {
    /// Least severity rank this filter lets through, as executable code.
    pub fn floor(self) -> (r: u8)
        ensures
            r as int == filter_floor(self),
    {
        match self {
            LevelFilter::Trace => 0,
            LevelFilter::Debug => 1,
            LevelFilter::Info => 2,
            LevelFilter::Warn => 3,
            LevelFilter::Error => 4,
            LevelFilter::Off => 5,
        }
    }

    /// Decides whether a record of severity `l` passes this filter.
    pub fn passes(self, l: Level) -> (r: bool)
        ensures
            r == filter_passes(self, l),
    {
        l.rank() >= self.floor()
    }
}

} // verus!
