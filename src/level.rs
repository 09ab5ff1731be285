//! Log severity levels and per-level counters.

use vstd::prelude::*;
use crate::text::{lower_of, lowercase, str_eq};

verus! {

/// Log severity level.
#[derive(Clone, Copy, Debug, PartialEq, Eq, Hash, Structural)]
pub enum LogLevel {
    Trace,
    Debug,
    Info,
    Warn,
    Error,
    Fatal,
    Unknown,
}

/// The level that a lower-case level name stands for.
pub open spec fn level_named(name: Seq<char>) -> LogLevel {
    if name == "trace"@ || name == "trc"@ || name == "trce"@ {
        LogLevel::Trace
    } else if name == "debug"@ || name == "dbg"@ || name == "debg"@ {
        LogLevel::Debug
    } else if name == "info"@ || name == "inf"@ || name == "information"@ {
        LogLevel::Info
    } else if name == "warn"@ || name == "warning"@ || name == "wrn"@ {
        LogLevel::Warn
    } else if name == "error"@ || name == "err"@ || name == "erro"@ {
        LogLevel::Error
    } else if name == "fatal"@ || name == "panic"@ || name == "critical"@ || name == "crit"@
        || name == "ftl"@ {
        LogLevel::Fatal
    } else {
        LogLevel::Unknown
    }
}

/// The three-letter label of a level.
pub open spec fn level_label(l: LogLevel) -> Seq<char> {
    match l {
        LogLevel::Trace => "TRC"@,
        LogLevel::Debug => "DBG"@,
        LogLevel::Info => "INF"@,
        LogLevel::Warn => "WRN"@,
        LogLevel::Error => "ERR"@,
        LogLevel::Fatal => "FTL"@,
        LogLevel::Unknown => "???"@,
    }
}

/// Rank of a level for minimum-level comparisons; unknown ranks as info.
pub open spec fn ordinal(l: LogLevel) -> u8 {
    match l {
        LogLevel::Trace => 0,
        LogLevel::Debug => 1,
        LogLevel::Info => 2,
        LogLevel::Warn => 3,
        LogLevel::Error => 4,
        LogLevel::Fatal => 5,
        LogLevel::Unknown => 2,
    }
}

impl Default for LogLevel {
    fn default() -> (r: Self)
        ensures
            r == LogLevel::Info,
    {
        LogLevel::Info
    }
}

impl LogLevel {
    /// Parses a level from its common names, ignoring case.
    pub fn from_str(s: &str) -> (r: Self)
        ensures
            r == level_named(lower_of(s@)),
    {
        let low = lowercase(s);
        Self::from_lowercase_name(low.as_str())
    }

    /// The level that an already lower-cased name stands for.
    pub fn from_lowercase_name(name: &str) -> (r: Self)
        ensures
            r == level_named(name@),
    {
        if str_eq(name, "trace") || str_eq(name, "trc") || str_eq(name, "trce") {
            LogLevel::Trace
        } else if str_eq(name, "debug") || str_eq(name, "dbg") || str_eq(name, "debg") {
            LogLevel::Debug
        } else if str_eq(name, "info") || str_eq(name, "inf") || str_eq(name, "information") {
            LogLevel::Info
        } else if str_eq(name, "warn") || str_eq(name, "warning") || str_eq(name, "wrn") {
            LogLevel::Warn
        } else if str_eq(name, "error") || str_eq(name, "err") || str_eq(name, "erro") {
            LogLevel::Error
        } else if str_eq(name, "fatal") || str_eq(name, "panic") || str_eq(name, "critical")
            || str_eq(name, "crit") || str_eq(name, "ftl") {
            LogLevel::Fatal
        } else {
            LogLevel::Unknown
        }
    }

    /// Short display label (three characters).
    pub fn as_str(&self) -> (r: &'static str)
        ensures
            r@ == level_label(*self),
    {
        match self {
            LogLevel::Trace => "TRC",
            LogLevel::Debug => "DBG",
            LogLevel::Info => "INF",
            LogLevel::Warn => "WRN",
            LogLevel::Error => "ERR",
            LogLevel::Fatal => "FTL",
            LogLevel::Unknown => "???",
        }
    }
}

/// Rank of a level for minimum-level comparisons.
pub fn level_ordinal(level: LogLevel) -> (r: u8)
    ensures
        r == ordinal(level),
{
    match level {
        LogLevel::Trace => 0,
        LogLevel::Debug => 1,
        LogLevel::Info => 2,
        LogLevel::Warn => 3,
        LogLevel::Error => 4,
        LogLevel::Fatal => 5,
        LogLevel::Unknown => 2,
    }
}

/// Number of entries per level.
#[derive(Clone, Copy, Debug)]
pub struct LevelCounts {
    pub trace: usize,
    pub debug: usize,
    pub info: usize,
    pub warn: usize,
    pub error: usize,
    pub fatal: usize,
    pub unknown: usize,
}

impl Default for LevelCounts {
    fn default() -> (r: Self)
        ensures
            r.spec_total() == 0,
            forall|l: LogLevel| r.count(l) == 0,
    {
        LevelCounts::zero()
    }
}

impl LevelCounts {
    /// The counter kept for `l`.
    pub open spec fn count(self, l: LogLevel) -> nat {
        match l {
            LogLevel::Trace => self.trace as nat,
            LogLevel::Debug => self.debug as nat,
            LogLevel::Info => self.info as nat,
            LogLevel::Warn => self.warn as nat,
            LogLevel::Error => self.error as nat,
            LogLevel::Fatal => self.fatal as nat,
            LogLevel::Unknown => self.unknown as nat,
        }
    }

    /// The sum of all counters.
    pub open spec fn spec_total(self) -> nat {
        (self.trace + self.debug + self.info + self.warn + self.error + self.fatal
            + self.unknown) as nat
    }

    /// All counters at zero.
    pub fn zero() -> (r: Self)
        ensures
            r.spec_total() == 0,
            forall|l: LogLevel| r.count(l) == 0,
    {
        LevelCounts { trace: 0, debug: 0, info: 0, warn: 0, error: 0, fatal: 0, unknown: 0 }
    }

    /// The sum of all counters.
    pub fn total(&self) -> (r: usize)
        requires
            self.spec_total() <= usize::MAX,
        ensures
            r == self.spec_total(),
    {
        self.trace + self.debug + self.info + self.warn + self.error + self.fatal + self.unknown
    }

    /// Adds one to the counter of `level`.
    pub fn increment(&mut self, level: LogLevel)
        requires
            old(self).spec_total() < usize::MAX,
        ensures
            final(self).count(level) == old(self).count(level) + 1,
            forall|l: LogLevel| l != level ==> final(self).count(l) == old(self).count(l),
            final(self).spec_total() == old(self).spec_total() + 1,
    {
        match level {
            LogLevel::Trace => self.trace = self.trace + 1,
            LogLevel::Debug => self.debug = self.debug + 1,
            LogLevel::Info => self.info = self.info + 1,
            LogLevel::Warn => self.warn = self.warn + 1,
            LogLevel::Error => self.error = self.error + 1,
            LogLevel::Fatal => self.fatal = self.fatal + 1,
            LogLevel::Unknown => self.unknown = self.unknown + 1,
        }
    }

    /// Takes one from the counter of `level`.
    pub fn decrement(&mut self, level: LogLevel)
        requires
            old(self).count(level) > 0,
        ensures
            final(self).count(level) == old(self).count(level) - 1,
            forall|l: LogLevel| l != level ==> final(self).count(l) == old(self).count(l),
            final(self).spec_total() == old(self).spec_total() - 1,
    {
        match level {
            LogLevel::Trace => self.trace = self.trace - 1,
            LogLevel::Debug => self.debug = self.debug - 1,
            LogLevel::Info => self.info = self.info - 1,
            LogLevel::Warn => self.warn = self.warn - 1,
            LogLevel::Error => self.error = self.error - 1,
            LogLevel::Fatal => self.fatal = self.fatal - 1,
            LogLevel::Unknown => self.unknown = self.unknown - 1,
        }
    }

    /// Sets every counter to zero.
    pub fn reset(&mut self)
        ensures
            final(self).spec_total() == 0,
            forall|l: LogLevel| final(self).count(l) == 0,
    {
        *self = LevelCounts::zero();
    }
}

} // verus!
