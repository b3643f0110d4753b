//! What is said out loud, and how: the levels of the messages, the tag each
//! level is shown with, and the level that a number of `-v` flags asks for.

use vstd::prelude::*;

verus! {

/// How much a message matters, from most to least.
#[derive(Debug, Clone, Copy, PartialEq, Eq, Structural)]
pub enum Level {
    Error,
    Warn,
    Info,
    Debug,
    Trace,
}

/// Where a message is written.
#[derive(Debug, Clone, Copy, PartialEq, Eq, Structural)]
pub enum Stream {
    Output,
    Error,
}

/// The least important level that is still shown for `verbose` flags:
/// warnings without a flag, notes with one, everything but traces with more.
pub open spec fn max_level(verbose: u64) -> Level {
    if verbose == 0 {
        Level::Warn
    } else if verbose == 1 {
        Level::Info
    } else {
        Level::Debug
    }
}

/// The tag a message of `level` starts with; traces are not shown at all.
pub open spec fn tag_of(level: Level) -> Option<Seq<char>> {
    match level {
        Level::Info => Some("[i]"@),
        Level::Warn => Some("[w]"@),
        Level::Error => Some("[e]"@),
        Level::Debug => Some("[d]"@),
        Level::Trace => None,
    }
}

/// Where a message of `level` goes: warnings and errors to the error
/// stream, the rest to the output.
pub open spec fn stream_of(level: Level) -> Stream {
    match level {
        Level::Warn | Level::Error => Stream::Error,
        _ => Stream::Output,
    }
}

/// The level that `verbose` flags ask for.
pub fn init_logger(verbose: u64) -> (level: Level)
    ensures
        level == max_level(verbose),
{
    match verbose {
        0 => Level::Warn,
        1 => Level::Info,
        _ => Level::Debug,
    }
}

/// The way messages are shown.
#[derive(Debug, Clone, Copy, PartialEq, Eq)]
pub struct Logger;

impl Logger {
    /// Whether messages of `level` are taken at all: every one is, and
    /// the level asked for sorts them out afterwards.
    pub fn enabled(&self, level: Level) -> (b: bool)
        ensures
            b,
    {
        true
    }

    /// The tag a message of `level` starts with, if it is shown.
    pub fn tag(&self, level: Level) -> (r: Option<&'static str>)
        ensures
            match r {
                Some(t) => tag_of(level) == Some(t@),
                None => tag_of(level) is None,
            },
    {
        match level {
            Level::Info => Some("[i]"),
            Level::Warn => Some("[w]"),
            Level::Error => Some("[e]"),
            Level::Debug => Some("[d]"),
            Level::Trace => None,
        }
    }

    /// Where a message of `level` is written.
    pub fn stream(&self, level: Level) -> (s: Stream)
        ensures
            s == stream_of(level),
    {
        match level {
            Level::Warn | Level::Error => Stream::Error,
            _ => Stream::Output,
        }
    }
}

} // verus!
