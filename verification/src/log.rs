//! How severe a log record is, and where it goes.

use crate::text::{chars_of, join, lower_chars, same_text, text_of};
use crate::types::{McpError, McpErrorView};
use vstd::prelude::*;
use vstd::string::*;

verus! {

/// Where a log record goes that the client does not get.
#[derive(Debug, Clone, Copy, PartialEq, Eq, Structural)]
pub enum StderrLogging {
    /// Nowhere.
    Never,
    /// To stderr, exactly where the client did not get it.
    Fallback,
    /// To stderr, whether the client got it or not.
    Always,
}

impl Default for StderrLogging {
    fn default() -> (r: Self)
        ensures
            r == StderrLogging::Fallback,
    {
        StderrLogging::Fallback
    }
}

impl StderrLogging {
    /// Whether a record is written to stderr.
    pub open spec fn writes(self, delivered: bool) -> bool {
        match self {
            StderrLogging::Never => false,
            StderrLogging::Fallback => !delivered,
            StderrLogging::Always => true,
        }
    }

    /// Whether a record is written to stderr, given whether the client got it.
    pub fn writes_stderr(&self, delivered: bool) -> (r: bool)
        ensures
            r == self.writes(delivered),
    {
        match self {
            StderrLogging::Never => false,
            StderrLogging::Fallback => !delivered,
            StderrLogging::Always => true,
        }
    }
}

/// The severities of syslog, in ascending order.
#[derive(Debug, Clone, Copy, PartialEq, Eq, PartialOrd, Ord, Structural)]
#[non_exhaustive]
pub enum LogLevel {
    Debug,
    Info,
    Notice,
    Warning,
    Error,
    Critical,
    Alert,
    Emergency,
}

impl Default for LogLevel {
    fn default() -> (r: Self)
        ensures
            r == LogLevel::Info,
    {
        LogLevel::Info
    }
}

/// Whether a name is that of a level, in any case, or of none.
pub open spec fn reads_as(name: Seq<char>, level: Option<LogLevel>) -> bool {
    match level {
        Some(level) => crate::text::lower_all(name) == level.name(),
        None => forall|level: LogLevel| crate::text::lower_all(name) != #[trigger] level.name(),
    }
}

impl LogLevel {
    /// Every level, in ascending order.
    pub const ALL: [LogLevel; 8] = [
        LogLevel::Debug,
        LogLevel::Info,
        LogLevel::Notice,
        LogLevel::Warning,
        LogLevel::Error,
        LogLevel::Critical,
        LogLevel::Alert,
        LogLevel::Emergency,
    ];

    /// The place of a level among all of them.
    pub open spec fn severity(self) -> int {
        match self {
            LogLevel::Debug => 0,
            LogLevel::Info => 1,
            LogLevel::Notice => 2,
            LogLevel::Warning => 3,
            LogLevel::Error => 4,
            LogLevel::Critical => 5,
            LogLevel::Alert => 6,
            LogLevel::Emergency => 7,
        }
    }

    /// The name of a level on the wire.
    pub open spec fn name(self) -> Seq<char> {
        match self {
            LogLevel::Debug => "debug"@,
            LogLevel::Info => "info"@,
            LogLevel::Notice => "notice"@,
            LogLevel::Warning => "warning"@,
            LogLevel::Error => "error"@,
            LogLevel::Critical => "critical"@,
            LogLevel::Alert => "alert"@,
            LogLevel::Emergency => "emergency"@,
        }
    }

    fn rank(&self) -> (r: u8)
        ensures
            r == self.severity(),
    {
        match self {
            LogLevel::Debug => 0,
            LogLevel::Info => 1,
            LogLevel::Notice => 2,
            LogLevel::Warning => 3,
            LogLevel::Error => 4,
            LogLevel::Critical => 5,
            LogLevel::Alert => 6,
            LogLevel::Emergency => 7,
        }
    }

    /// Whether this level is no less severe than another.
    pub fn at_least(&self, minimum: LogLevel) -> (r: bool)
        ensures
            r == (self.severity() >= minimum.severity()),
    {
        self.rank() >= minimum.rank()
    }

    /// The name of the level on the wire.
    pub fn as_str(&self) -> (r: &'static str)
        ensures
            r@ == self.name(),
    {
        match self {
            LogLevel::Debug => "debug",
            LogLevel::Info => "info",
            LogLevel::Notice => "notice",
            LogLevel::Warning => "warning",
            LogLevel::Error => "error",
            LogLevel::Critical => "critical",
            LogLevel::Alert => "alert",
            LogLevel::Emergency => "emergency",
        }
    }

    /// The name of the level on the wire.
    pub fn to_string(&self) -> (r: String)
        ensures
            r@ == self.name(),
    {
        self.as_str().to_owned()
    }

    /// The level with this name, in any case.
    pub fn from_wire(name: &str) -> (r: Option<LogLevel>)
        ensures
            reads_as(name@, r),
    {
        let wanted = text_of(&lower_chars(&chars_of(name)));
        if same_text(wanted.as_str(), "debug") {
            Some(LogLevel::Debug)
        } else if same_text(wanted.as_str(), "info") {
            Some(LogLevel::Info)
        } else if same_text(wanted.as_str(), "notice") {
            Some(LogLevel::Notice)
        } else if same_text(wanted.as_str(), "warning") {
            Some(LogLevel::Warning)
        } else if same_text(wanted.as_str(), "error") {
            Some(LogLevel::Error)
        } else if same_text(wanted.as_str(), "critical") {
            Some(LogLevel::Critical)
        } else if same_text(wanted.as_str(), "alert") {
            Some(LogLevel::Alert)
        } else if same_text(wanted.as_str(), "emergency") {
            Some(LogLevel::Emergency)
        } else {
            None
        }
    }
}

impl std::str::FromStr for LogLevel {
    type Err = McpError;

    fn from_str(s: &str) -> (r: Result<LogLevel, McpError>)
        ensures
            match r {
                Ok(level) => reads_as(s@, Some(level)),
                Err(e) => e@ == McpErrorView::InvalidParams("Unknown log level: "@ + s@)
                    && reads_as(s@, None),
            },
    {
        match LogLevel::from_wire(s) {
            Some(level) => Ok(level),
            None => Err(McpError::InvalidParams(join("Unknown log level: ", s))),
        }
    }
}

/// No two levels share a name, so a name that is read is the level that was
/// written; and no name has an upper-case letter in it.
pub proof fn law_levels_are_read_back_from_their_names(a: LogLevel, b: LogLevel)
    ensures
        a.name() == b.name() ==> a == b,
        crate::text::lower_all(a.name()) == a.name(),
{
    reveal_strlit("debug");
    reveal_strlit("info");
    reveal_strlit("notice");
    reveal_strlit("warning");
    reveal_strlit("error");
    reveal_strlit("critical");
    reveal_strlit("alert");
    reveal_strlit("emergency");
    assert(crate::text::lower_all(a.name()) =~= a.name());
    assert("debug"@.len() == 5 && "error"@.len() == 5 && "alert"@.len() == 5);
    assert("debug"@[0] == 'd' && "error"@[0] == 'e' && "alert"@[0] == 'a');
    assert("info"@.len() == 4 && "notice"@.len() == 6 && "warning"@.len() == 7);
    assert("critical"@.len() == 8 && "emergency"@.len() == 9);
}

/// Levels are ordered by severity, and only equal levels are equally severe.
pub proof fn law_levels_are_ordered(a: LogLevel, b: LogLevel)
    ensures
        a.severity() == b.severity() <==> a == b,
        0 <= a.severity() < 8,
        LogLevel::ALL@[a.severity()] == a,
{
}

/// No record vanishes unless it was asked to: with [`StderrLogging::Fallback`],
/// a record reaches the client or stderr, and never both.
pub proof fn law_fallback_loses_nothing(delivered: bool)
    ensures
        delivered != StderrLogging::Fallback.writes(delivered),
        !StderrLogging::Never.writes(delivered),
        StderrLogging::Always.writes(delivered),
{
}

} // verus!
