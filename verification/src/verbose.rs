//! Command-line verbosity: occurrence counts of the verbose and quiet
//! flags mapped to a log-level filter.

use vstd::prelude::*;

verus! {

/// A log level, most severe first.
#[derive(Debug, Clone, Copy, PartialEq, Eq, Hash, Structural)]
pub enum Level {
    Error,
    Warn,
    Info,
    Debug,
    Trace,
}

/// A log-level filter: a level, or everything off.
#[derive(Debug, Clone, Copy, PartialEq, Eq, Hash, Structural)]
pub enum LevelFilter {
    Off,
    Error,
    Warn,
    Info,
    Debug,
    Trace,
}

pub open spec fn spec_level_value(level: Option<Level>) -> int {
    match level {
        None => -1,
        Some(Level::Error) => 0,
        Some(Level::Warn) => 1,
        Some(Level::Info) => 2,
        Some(Level::Debug) => 3,
        Some(Level::Trace) => 4,
    }
}

pub open spec fn spec_level_enum(verbosity: int) -> Option<Level> {
    if verbosity <= -1 {
        None
    } else if verbosity == 0 {
        Some(Level::Error)
    } else if verbosity == 1 {
        Some(Level::Warn)
    } else if verbosity == 2 {
        Some(Level::Info)
    } else if verbosity == 3 {
        Some(Level::Debug)
    } else {
        Some(Level::Trace)
    }
}

/// The filter that passes exactly the given level and above; everything
/// off when there is none.
pub open spec fn spec_filter_of(level: Option<Level>) -> LevelFilter {
    match level {
        None => LevelFilter::Off,
        Some(Level::Error) => LevelFilter::Error,
        Some(Level::Warn) => LevelFilter::Warn,
        Some(Level::Info) => LevelFilter::Info,
        Some(Level::Debug) => LevelFilter::Debug,
        Some(Level::Trace) => LevelFilter::Trace,
    }
}

/// The numeric position of a level on the verbosity scale.
pub fn level_value(level: Option<Level>) -> (r: i8)
    ensures
        r as int == spec_level_value(level),
{
    match level {
        None => -1,
        Some(Level::Error) => 0,
        Some(Level::Warn) => 1,
        Some(Level::Info) => 2,
        Some(Level::Debug) => 3,
        Some(Level::Trace) => 4,
    }
}

/// The level a verbosity count selects, saturating at both ends.
pub fn level_enum(verbosity: i8) -> (r: Option<Level>)
    ensures
        r == spec_level_enum(verbosity as int),
{
    if verbosity <= -1 {
        None
    } else if verbosity == 0 {
        Some(Level::Error)
    } else if verbosity == 1 {
        Some(Level::Warn)
    } else if verbosity == 2 {
        Some(Level::Info)
    } else if verbosity == 3 {
        Some(Level::Debug)
    } else {
        Some(Level::Trace)
    }
}

/// The default level a verbosity flag set starts from.
pub trait LogLevel {
    spec fn spec_default() -> Option<Level>;

    fn default() -> (r: Option<Level>)
        ensures
            r == Self::spec_default(),
    ;

    fn verbose_help() -> (r: Option<&'static str>) {
        Some("More output per occurrence")
    }

    fn verbose_long_help() -> (r: Option<&'static str>) {
        None
    }

    fn quiet_help() -> (r: Option<&'static str>) {
        Some("Less output per occurrence")
    }

    fn quiet_long_help() -> (r: Option<&'static str>) {
        None
    }
}

/// Occurrence counts of the verbose and quiet flags.
#[derive(Debug)]
pub struct Verbosity<L: LogLevel = ErrorLevel> {
    pub verbose: i8,
    pub quiet: i8,
    pub phantom: core::marker::PhantomData<L>,
}

impl<L: LogLevel> Verbosity<L> {
    /// The effective verbosity: the default, quieted and loudened by the
    /// flag counts. The bounds keep every intermediate value in range, as
    /// the flag counts always do.
    pub fn verbosity(&self) -> (r: i8)
        requires
            i8::MIN <= spec_level_value(L::spec_default()) - self.quiet <= i8::MAX,
            i8::MIN <= spec_level_value(L::spec_default()) - self.quiet + self.verbose
                <= i8::MAX,
        ensures
            r as int == spec_level_value(L::spec_default()) - self.quiet + self.verbose,
    {
        level_value(L::default()) - self.quiet + self.verbose
    }

    /// The filter the flag counts select.
    pub fn log_level_filter(&self) -> (r: LevelFilter)
        requires
            i8::MIN <= spec_level_value(L::spec_default()) - self.quiet <= i8::MAX,
            i8::MIN <= spec_level_value(L::spec_default()) - self.quiet + self.verbose
                <= i8::MAX,
        ensures
            r == spec_filter_of(
                spec_level_enum(
                    spec_level_value(L::spec_default()) - self.quiet + self.verbose,
                ),
            ),
    {
        let v = self.verbosity();
        match level_enum(v) {
            None => LevelFilter::Off,
            Some(Level::Error) => LevelFilter::Error,
            Some(Level::Warn) => LevelFilter::Warn,
            Some(Level::Info) => LevelFilter::Info,
            Some(Level::Debug) => LevelFilter::Debug,
            Some(Level::Trace) => LevelFilter::Trace,
        }
    }
}

/// Quiet by default: only errors.
#[derive(Debug, Clone, Copy, Default)]
pub struct ErrorLevel;

impl LogLevel for ErrorLevel {
    open spec fn spec_default() -> Option<Level> {
        Some(Level::Error)
    }

    fn default() -> (r: Option<Level>) {
        Some(Level::Error)
    }
}

/// Warnings and errors by default.
#[derive(Debug, Clone, Copy, Default)]
pub struct WarnLevel;

impl LogLevel for WarnLevel {
    open spec fn spec_default() -> Option<Level> {
        Some(Level::Warn)
    }

    fn default() -> (r: Option<Level>) {
        Some(Level::Warn)
    }
}

/// Informational output by default.
#[derive(Debug, Clone, Copy, Default)]
pub struct InfoLevel;

impl LogLevel for InfoLevel {
    open spec fn spec_default() -> Option<Level> {
        Some(Level::Info)
    }

    fn default() -> (r: Option<Level>) {
        Some(Level::Info)
    }
}

} // verus!
