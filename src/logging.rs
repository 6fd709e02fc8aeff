//! Severity filtering and the text of log lines; writing them is the caller's.
use vstd::prelude::*;
use crate::text::concat;

verus! {

#[derive(Clone, Copy, Debug, PartialEq, Eq, Structural)]
pub enum Level {
    Debug,
    Info,
    Warn,
    Error,
}

impl Level {
    pub open spec fn rank_spec(self) -> nat {
        match self {
            Level::Debug => 0,
            Level::Info => 1,
            Level::Warn => 2,
            Level::Error => 3,
        }
    }

    pub open spec fn name_spec(self) -> Seq<char> {
        match self {
            Level::Debug => "debug"@,
            Level::Info => "info"@,
            Level::Warn => "warn"@,
            Level::Error => "error"@,
        }
    }

    pub fn rank(self) -> (r: u8)
        ensures
            r == self.rank_spec(),
    {
        match self {
            Level::Debug => 0,
            Level::Info => 1,
            Level::Warn => 2,
            Level::Error => 3,
        }
    }

    pub fn name(self) -> (r: &'static str)
        ensures
            r@ == self.name_spec(),
    {
        match self {
            Level::Debug => "debug",
            Level::Info => "info",
            Level::Warn => "warn",
            Level::Error => "error",
        }
    }
}

/// The logging context: messages below its threshold are dropped.
pub struct Logger {
    pub threshold: Level,
}

impl Logger {
    /// A context that lets through `Info` and above.
    pub fn new() -> (r: Logger)
        ensures
            r.threshold == Level::Info,
    {
        Logger { threshold: Level::Info }
    }
}

pub fn set_level(logger: &mut Logger, level: Level)
    ensures
        final(logger).threshold == level,
{
    logger.threshold = level;
}

pub fn enabled(logger: &Logger, level: Level) -> (r: bool)
    ensures
        r == (level.rank_spec() >= logger.threshold.rank_spec()),
{
    level.rank() >= logger.threshold.rank()
}

/// The line to write for `msg` at `level`, if the threshold lets it through.
pub fn log_line(logger: &Logger, level: Level, msg: &str) -> (r: Option<String>)
    ensures
        level.rank_spec() >= logger.threshold.rank_spec() ==> (r matches Some(l)
            && l@ == "hyprstream["@ + level.name_spec() + "]: "@ + msg@),
        level.rank_spec() < logger.threshold.rank_spec() ==> r is None,
{
    if !enabled(logger, level) {
        return None;
    }
    let mut l = concat("hyprstream[", level.name());
    l.append("]: ");
    l.append(msg);
    Some(l)
}

} // verus!
