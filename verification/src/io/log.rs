//! Log levels, their labels and their colours.

use vstd::prelude::*;
use vstd::string::StringExecFns;

verus! {

/// Logging levels.
#[derive(Debug, Clone, Copy, PartialEq, Eq, Structural)]
pub enum LogLevel {
    Info,
    Success,
    Warning,
    Error,
    Bug,
    Fatal,
    Debug,
    Trace,
}

/// The colours in which log lines are printed.
#[derive(Debug, Clone, Copy, PartialEq, Eq, Structural)]
pub enum LogColor {
    Blue,
    Green,
    Yellow,
    Red,
    BrightRed,
    Magenta,
    Cyan,
}

impl LogLevel {
    /// The colour of each level.
    pub open spec fn style_spec(self) -> LogColor {
        match self {
            LogLevel::Info => LogColor::Blue,
            LogLevel::Success => LogColor::Green,
            LogLevel::Warning => LogColor::Yellow,
            LogLevel::Error => LogColor::Red,
            LogLevel::Bug => LogColor::BrightRed,
            LogLevel::Fatal => LogColor::BrightRed,
            LogLevel::Debug => LogColor::Magenta,
            LogLevel::Trace => LogColor::Cyan,
        }
    }

    /// The label of each level: its name in capitals.
    pub open spec fn label_spec(self) -> Seq<char> {
        match self {
            LogLevel::Info => "INFO"@,
            LogLevel::Success => "SUCCESS"@,
            LogLevel::Warning => "WARNING"@,
            LogLevel::Error => "ERROR"@,
            LogLevel::Bug => "BUG"@,
            LogLevel::Fatal => "FATAL"@,
            LogLevel::Debug => "DEBUG"@,
            LogLevel::Trace => "TRACE"@,
        }
    }

    /// Returns the colour associated with the log level.
    pub fn style(&self) -> (color: LogColor)
        ensures
            color == self.style_spec(),
    {
        match self {
            LogLevel::Info => LogColor::Blue,
            LogLevel::Success => LogColor::Green,
            LogLevel::Warning => LogColor::Yellow,
            LogLevel::Error => LogColor::Red,
            LogLevel::Bug => LogColor::BrightRed,
            LogLevel::Fatal => LogColor::BrightRed,
            LogLevel::Debug => LogColor::Magenta,
            LogLevel::Trace => LogColor::Cyan,
        }
    }

    /// Returns the label under which the level is printed.
    pub fn label(&self) -> (text: &'static str)
        ensures
            text@ == self.label_spec(),
    {
        match self {
            LogLevel::Info => "INFO",
            LogLevel::Success => "SUCCESS",
            LogLevel::Warning => "WARNING",
            LogLevel::Error => "ERROR",
            LogLevel::Bug => "BUG",
            LogLevel::Fatal => "FATAL",
            LogLevel::Debug => "DEBUG",
            LogLevel::Trace => "TRACE",
        }
    }
}

/// The first line of a log entry: the level's label in square brackets, a
/// space, and the message.
pub open spec fn headline_spec(level: LogLevel, message: Seq<char>) -> Seq<char> {
    "["@ + level.label_spec() + "] "@ + message
}

/// What is printed below the first line for a context: a line break, an
/// indented arrow, and the context.
pub open spec fn context_line_spec(context: Seq<char>) -> Seq<char> {
    "\n  \u{21b3} "@ + context
}

/// Writes the first line of a log entry.
pub fn headline(level: LogLevel, message: &str) -> (line: String)
    ensures
        line@ == headline_spec(level, message@),
{
    let mut line = "[".to_owned();
    line.append(level.label());
    line.append("] ");
    line.append(message);
    line
}

/// Writes the line that carries the context of a log entry.
pub fn context_line(context: &str) -> (line: String)
    ensures
        line@ == context_line_spec(context@),
{
    let mut line = "\n  \u{21b3} ".to_owned();
    line.append(context);
    line
}

} // verus!
