//! The logger of the boot sequence: which lines it lets through, and
//! how a line looks.

use vstd::prelude::*;
use crate::text::{append_chars, from_chars, to_chars};

verus! {

/// How much a line of the log matters, the most important first.
#[derive(Clone, Copy, Debug, PartialEq, Eq, Structural)]
pub enum Level {
    Error,
    Warn,
    Info,
    Debug,
    Trace,
}

/// The least important level that a logger lets through, or none.
#[derive(Clone, Copy, Debug, PartialEq, Eq, Structural)]
pub enum LevelFilter {
    Off,
    Error,
    Warn,
    Info,
    Debug,
    Trace,
}

/// The number of a level: 1 for errors, up to 5 for traces.
pub open spec fn level_rank(level: Level) -> nat {
    match level {
        Level::Error => 1,
        Level::Warn => 2,
        Level::Info => 3,
        Level::Debug => 4,
        Level::Trace => 5,
    }
}

/// The number of a filter: that of the level it stands for, 0 for none.
pub open spec fn filter_rank(filter: LevelFilter) -> nat {
    match filter {
        LevelFilter::Off => 0,
        LevelFilter::Error => 1,
        LevelFilter::Warn => 2,
        LevelFilter::Info => 3,
        LevelFilter::Debug => 4,
        LevelFilter::Trace => 5,
    }
}

/// The filter that lets a level and everything more important through.
pub open spec fn filter_of(level: Level) -> LevelFilter {
    match level {
        Level::Error => LevelFilter::Error,
        Level::Warn => LevelFilter::Warn,
        Level::Info => LevelFilter::Info,
        Level::Debug => LevelFilter::Debug,
        Level::Trace => LevelFilter::Trace,
    }
}

/// The name of a level as the log shows it.
pub open spec fn level_name(level: Level) -> Seq<char> {
    match level {
        Level::Error => "ERROR"@,
        Level::Warn => "WARN"@,
        Level::Info => "INFO"@,
        Level::Debug => "DEBUG"@,
        Level::Trace => "TRACE"@,
    }
}

impl Level {
    /// The filter that lets this level and everything more important
    /// through.
    pub fn to_level_filter(&self) -> (r: LevelFilter)
        ensures
            r == filter_of(*self),
    {
        match self {
            Level::Error => LevelFilter::Error,
            Level::Warn => LevelFilter::Warn,
            Level::Info => LevelFilter::Info,
            Level::Debug => LevelFilter::Debug,
            Level::Trace => LevelFilter::Trace,
        }
    }

    /// The name of the level as the log shows it.
    pub fn name(&self) -> (r: &'static str)
        ensures
            r@ == level_name(*self),
    {
        match self {
            Level::Error => "ERROR",
            Level::Warn => "WARN",
            Level::Info => "INFO",
            Level::Debug => "DEBUG",
            Level::Trace => "TRACE",
        }
    }
}

/// A logger whose level can change while it runs.
#[derive(Debug)]
pub struct DynLogger {
    level: usize,
}

impl DynLogger {
    /// The filter of the logger.
    pub closed spec fn filter(&self) -> LevelFilter {
        if self.level == 0 {
            LevelFilter::Off
        } else if self.level == 1 {
            LevelFilter::Error
        } else if self.level == 2 {
            LevelFilter::Warn
        } else if self.level == 3 {
            LevelFilter::Info
        } else if self.level == 4 {
            LevelFilter::Debug
        } else {
            LevelFilter::Trace
        }
    }

    /// A logger that lets through what matters as much as information.
    pub fn new() -> (r: Self)
        ensures
            r.filter() == LevelFilter::Info,
    {
        Self { level: 3 }
    }

    /// The filter of the logger.
    pub fn current_level(&self) -> (r: LevelFilter)
        ensures
            r == self.filter(),
    {
        match self.level {
            0 => LevelFilter::Off,
            1 => LevelFilter::Error,
            2 => LevelFilter::Warn,
            3 => LevelFilter::Info,
            4 => LevelFilter::Debug,
            _ => LevelFilter::Trace,
        }
    }

    /// Sets the filter of the logger.
    pub fn set_level_internal(&mut self, level: LevelFilter)
        ensures
            final(self).filter() == level,
    {
        let val: usize = match level {
            LevelFilter::Off => 0,
            LevelFilter::Error => 1,
            LevelFilter::Warn => 2,
            LevelFilter::Info => 3,
            LevelFilter::Debug => 4,
            LevelFilter::Trace => 5,
        };
        self.level = val;
    }

    /// Whether the logger lets a line of this level through: it does
    /// when the level matters at least as much as its filter asks.
    pub fn enabled(&self, level: Level) -> (r: bool)
        ensures
            r == (level_rank(level) <= filter_rank(self.filter())),
    {
        let rank: usize = match level {
            Level::Error => 1,
            Level::Warn => 2,
            Level::Info => 3,
            Level::Debug => 4,
            Level::Trace => 5,
        };
        let bound: usize = if self.level > 5 {
            5
        } else {
            self.level
        };
        rank <= bound
    }

    /// The line that the logger writes for a message, or nothing when
    /// it does not let the level through: the name of the level in
    /// brackets, a blank, and the message.
    pub fn log(&self, level: Level, message: &str) -> (r: Option<String>)
        ensures
            match r {
                Some(line) => level_rank(level) <= filter_rank(self.filter()) && line@ == seq!['[']
                    + level_name(level) + seq![']', ' '] + message@,
                None => level_rank(level) > filter_rank(self.filter()),
            },
    {
        if !self.enabled(level) {
            return None;
        }
        let mut out: Vec<char> = Vec::new();
        out.push('[');
        append_chars(&mut out, to_chars(level.name()).as_slice());
        out.push(']');
        out.push(' ');
        append_chars(&mut out, to_chars(message).as_slice());
        assert(out@ == seq!['['] + level_name(level) + seq![']', ' '] + message@);
        Some(from_chars(out.as_slice()))
    }
}

/// Makes the logger of the boot sequence, with `level` as the least
/// important level that it lets through.
pub fn init_logger(level: Level) -> (r: DynLogger)
    ensures
        r.filter() == filter_of(level),
{
    let mut logger = DynLogger::new();
    set_log_level(&mut logger, level);
    logger
}

/// Sets the least important level that the logger lets through.
pub fn set_log_level(logger: &mut DynLogger, level: Level)
    ensures
        final(logger).filter() == filter_of(level),
{
    let lf = level.to_level_filter();
    logger.set_level_internal(lf);
}

} // verus!
