use crate::text::{ascii_lower, push_str, string_from_chars, to_ascii_lower};
use vstd::prelude::*;

verus! {

/// How grave a message is, from the least to the most.
#[derive(Debug, Clone, Copy, PartialEq, Eq, Structural)]
pub enum LogLevel {
    Trace,
    Debug,
    Info,
    Warn,
    Error,
}

impl LogLevel {
    /// The place of the level in the order of gravity.
    pub open spec fn rank(self) -> int {
        match self {
            LogLevel::Trace => 0,
            LogLevel::Debug => 1,
            LogLevel::Info => 2,
            LogLevel::Warn => 3,
            LogLevel::Error => 4,
        }
    }

    /// The upper-case name of the level.
    pub open spec fn name(self) -> Seq<char> {
        match self {
            LogLevel::Trace => "TRACE"@,
            LogLevel::Debug => "DEBUG"@,
            LogLevel::Info => "INFO"@,
            LogLevel::Warn => "WARN"@,
            LogLevel::Error => "ERROR"@,
        }
    }

    /// The level that a name stands for, whatever its case; `Info` for an
    /// unknown name.
    pub open spec fn named(name: Seq<char>) -> LogLevel {
        let lower = name.map_values(|c: char| ascii_lower(c));
        if lower == "trace"@ {
            LogLevel::Trace
        } else if lower == "debug"@ {
            LogLevel::Debug
        } else if lower == "warn"@ {
            LogLevel::Warn
        } else if lower == "error"@ {
            LogLevel::Error
        } else {
            LogLevel::Info
        }
    }

    fn index(&self) -> (r: u8)
        ensures
            r == self.rank(),
    {
        match self {
            LogLevel::Trace => 0,
            LogLevel::Debug => 1,
            LogLevel::Info => 2,
            LogLevel::Warn => 3,
            LogLevel::Error => 4,
        }
    }

    /// Whether this level is at least as grave as `other`.
    pub fn at_least(&self, other: LogLevel) -> (b: bool)
        ensures
            b == (self.rank() >= other.rank()),
    {
        self.index() >= other.index()
    }

    /// Renders the level as its upper-case name.
    pub fn to_string(&self) -> (s: String)
        ensures
            s@ == self.name(),
    {
        match self {
            LogLevel::Trace => "TRACE".to_owned(),
            LogLevel::Debug => "DEBUG".to_owned(),
            LogLevel::Info => "INFO".to_owned(),
            LogLevel::Warn => "WARN".to_owned(),
            LogLevel::Error => "ERROR".to_owned(),
        }
    }

    /// Reads a level from its name, whatever its case; an unknown name gives
    /// `Info`.
    pub fn from_name(name: &str) -> (level: LogLevel)
        ensures
            level == Self::named(name@),
    {
        let chars = crate::text::to_chars(name);
        let mut lower: Vec<char> = Vec::new();
        let mut i: usize = 0;
        while i < chars.len()
            invariant
                i <= chars@.len(),
                lower@ == chars@.take(i as int).map_values(|c: char| ascii_lower(c)),
            decreases chars@.len() - i,
        {
            lower.push(to_ascii_lower(chars[i]));
            assert(lower@ =~= chars@.take(i + 1).map_values(|c: char| ascii_lower(c)));
            i += 1;
        }
        assert(chars@.take(chars@.len() as int) =~= chars@);
        let l = lower.as_slice();
        if crate::text::same_chars(l, "trace") {
            LogLevel::Trace
        } else if crate::text::same_chars(l, "debug") {
            LogLevel::Debug
        } else if crate::text::same_chars(l, "warn") {
            LogLevel::Warn
        } else if crate::text::same_chars(l, "error") {
            LogLevel::Error
        } else {
            LogLevel::Info
        }
    }
}

/// What a logger is set to.
#[derive(Debug, Clone, Copy)]
pub struct LoggerConfig {
    /// The least grave level that is still reported.
    pub level: LogLevel,
}

impl Default for LoggerConfig {
    fn default() -> (c: Self)
        ensures
            c.level == LogLevel::Info,
    {
        LoggerConfig { level: LogLevel::Info }
    }
}

/// Decides which messages are reported and words them. Writing them out is
/// left to the caller.
#[derive(Debug)]
pub struct Logger {
    config: LoggerConfig,
}

/// The line that reports `message` at `level`, written at `time`.
pub open spec fn log_line(time: Seq<char>, level: LogLevel, message: Seq<char>) -> Seq<char> {
    "["@ + time + "] ["@ + level.name() + "] "@ + message
}

impl Logger {
    /// The least grave level that the logger reports.
    pub closed spec fn level(&self) -> LogLevel {
        self.config.level
    }

    /// What the logger makes of `message` at `level`: the line to write, or
    /// nothing where the level is below the logger's.
    pub open spec fn report(&self, level: LogLevel, time: Seq<char>, message: Seq<char>) -> Option<
        Seq<char>,
    > {
        if level.rank() >= self.level().rank() {
            Some(log_line(time, level, message))
        } else {
            None
        }
    }

    /// A logger with the given configuration, or with the default one.
    pub fn new(config: Option<LoggerConfig>) -> (l: Self)
        ensures
            l.level() == match config {
                Some(c) => c.level,
                None => LogLevel::Info,
            },
    {
        match config {
            Some(c) => Logger { config: c },
            None => Logger { config: LoggerConfig::default() },
        }
    }

    /// A logger that reports `Info` and what is graver.
    pub fn default() -> (l: Self)
        ensures
            l.level() == LogLevel::Info,
    {
        Logger::new(Some(LoggerConfig::default()))
    }

    /// Sets the least grave level that is reported.
    pub fn set_level(&mut self, level: LogLevel)
        ensures
            final(self).level() == level,
    {
        self.config.level = level;
    }

    /// Whether a message at `level` ends the program once it is written.
    pub fn is_fatal(level: LogLevel) -> (b: bool)
        ensures
            b == (level == LogLevel::Error),
    {
        level.index() == 4
    }

    /// Words the report of `message` at `level`, or returns nothing where the
    /// level is below the logger's. `time` is the moment of writing, as it is
    /// to appear.
    pub fn log_fmt(&self, level: LogLevel, time: &str, message: &str) -> (line: Option<String>)
        ensures
            match line {
                Some(l) => self.report(level, time@, message@) == Some(l@),
                None => self.report(level, time@, message@) is None,
            },
    {
        if !level.at_least(self.config.level) {
            return None;
        }
        let mut text: Vec<char> = Vec::new();
        push_str(&mut text, "[");
        push_str(&mut text, time);
        push_str(&mut text, "] [");
        push_str(&mut text, level.to_string().as_str());
        push_str(&mut text, "] ");
        push_str(&mut text, message);
        assert(text@ =~= log_line(time@, level, message@));
        Some(string_from_chars(text.as_slice()))
    }

    /// Words the report of a message at the level `Trace`.
    pub fn trace_fmt(&self, time: &str, message: &str) -> (line: Option<String>)
        ensures
            match line {
                Some(l) => self.report(LogLevel::Trace, time@, message@) == Some(l@),
                None => self.report(LogLevel::Trace, time@, message@) is None,
            },
    {
        self.log_fmt(LogLevel::Trace, time, message)
    }

    /// Words the report of a message at the level `Debug`.
    pub fn debug_fmt(&self, time: &str, message: &str) -> (line: Option<String>)
        ensures
            match line {
                Some(l) => self.report(LogLevel::Debug, time@, message@) == Some(l@),
                None => self.report(LogLevel::Debug, time@, message@) is None,
            },
    {
        self.log_fmt(LogLevel::Debug, time, message)
    }

    /// Words the report of a message at the level `Info`.
    pub fn info_fmt(&self, time: &str, message: &str) -> (line: Option<String>)
        ensures
            match line {
                Some(l) => self.report(LogLevel::Info, time@, message@) == Some(l@),
                None => self.report(LogLevel::Info, time@, message@) is None,
            },
    {
        self.log_fmt(LogLevel::Info, time, message)
    }

    /// Words the report of a message at the level `Warn`.
    pub fn warn_fmt(&self, time: &str, message: &str) -> (line: Option<String>)
        ensures
            match line {
                Some(l) => self.report(LogLevel::Warn, time@, message@) == Some(l@),
                None => self.report(LogLevel::Warn, time@, message@) is None,
            },
    {
        self.log_fmt(LogLevel::Warn, time, message)
    }

    /// Words the report of a message at the level `Error`. It is always
    /// reported, being the gravest.
    pub fn error_fmt(&self, time: &str, message: &str) -> (line: Option<String>)
        ensures
            line matches Some(l) && l@ == log_line(time@, LogLevel::Error, message@),
    {
        self.log_fmt(LogLevel::Error, time, message)
    }
}

} // verus!
