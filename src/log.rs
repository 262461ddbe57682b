use vstd::prelude::*;

verus! {

/// The severity of a log line.
#[derive(Debug, Clone, Copy, PartialEq, Eq, Structural)]
pub enum LogLevel {
    INFO,
    WARN,
    ERROR,
}

pub open spec fn level_label(level: LogLevel) -> Seq<char> {
    match level {
        LogLevel::INFO => "[INFO]"@,
        LogLevel::WARN => "[WARN]"@,
        LogLevel::ERROR => "[ERROR]"@,
    }
}

impl LogLevel {
    /// The tag that starts a log line of this level.
    pub fn label(&self) -> (r: &'static str)
        ensures
            r@ == level_label(*self),
    {
        match self {
            LogLevel::INFO => "[INFO]",
            LogLevel::WARN => "[WARN]",
            LogLevel::ERROR => "[ERROR]",
        }
    }

    /// Whether a line of this level is also shown on the terminal.
    pub fn is_shown(&self) -> (r: bool)
        ensures
            r == (*self != LogLevel::INFO),
    {
        !matches!(self, LogLevel::INFO)
    }
}

/// A log line: the level's tag, a space, the message and a line break.
pub fn log_line(level: LogLevel, message: &str) -> (r: String)
    ensures
        r@ == level_label(level) + " "@ + message@ + "\n"@,
{
    let mut line = level.label().to_owned();
    line.append(" ");
    line.append(message);
    line.append("\n");
    line
}

} // verus!
