//! The log level that a provider under test runs with.
use std::ops::Deref;
use std::str::FromStr;
use vstd::prelude::*;
use vstd::std_specs::convert::FromSpecImpl;

verus! {

/// The levels of the `log` crate, with their variants visible to proofs.
#[verifier::external_type_specification]
pub struct ExLevel(log::Level);

/// The error of parsing a level, which holds nothing but the fact of the failure.
#[verifier::external_type_specification]
#[verifier::external_body]
pub struct ExParseLevelError(log::ParseLevelError);

/// The name by which the `log` crate writes a level.
pub open spec fn level_name(level: log::Level) -> Seq<char> {
    match level {
        log::Level::Error => "ERROR"@,
        log::Level::Warn => "WARN"@,
        log::Level::Info => "INFO"@,
        log::Level::Debug => "DEBUG"@,
        log::Level::Trace => "TRACE"@,
    }
}

/// `c` with an ASCII capital letter replaced by the small one.
pub open spec fn ascii_lower(c: char) -> char {
    if 'A' <= c <= 'Z' {
        ((c as u32 + 32) as u32) as char
    } else {
        c
    }
}

/// Whether two texts differ in nothing but the case of ASCII letters.
pub open spec fn equal_ignoring_case(a: Seq<char>, b: Seq<char>) -> bool {
    &&& a.len() == b.len()
    &&& forall|i: int| 0 <= i < a.len() ==> ascii_lower(#[trigger] a[i]) == ascii_lower(b[i])
}

/// `log::Level::as_str` gives the name of the level in capital letters.
pub assume_specification[ log::Level::as_str ](level: &log::Level) -> (name: &'static str)
    ensures
        name@ == level_name(*level),
;

/// `<log::Level as FromStr>::from_str` accepts the five level names in any mix of
/// ASCII case and nothing else.
#[verifier::external_body]
fn parse_level(s: &str) -> (result: Result<log::Level, log::ParseLevelError>)
    ensures
        match result {
            Ok(level) => equal_ignoring_case(s@, level_name(level)),
            Err(_) => forall|level: log::Level| !equal_ignoring_case(s@, #[trigger] level_name(level)),
        },
{
    s.parse::<log::Level>()
}

/// Log level of a capability provider.
#[derive(Debug, Eq, Hash, PartialEq)]
pub struct LogLevel(pub log::Level);

impl LogLevel {
    /// The name of the level, as it goes into the environment of a provider.
    pub fn as_str(&self) -> (name: &'static str)
        ensures
            name@ == level_name(self.0),
            name@ == (match self.0 {
                log::Level::Error => "ERROR"@,
                log::Level::Warn => "WARN"@,
                log::Level::Info => "INFO"@,
                log::Level::Debug => "DEBUG"@,
                log::Level::Trace => "TRACE"@,
            }),
    {
        self.0.as_str()
    }

    /// Whether both levels are the same.
    pub fn same_as(&self, other: &LogLevel) -> (same: bool)
        ensures
            same == (self.0 == other.0),
    {
        match (self.0, other.0) {
            (log::Level::Error, log::Level::Error) => true,
            (log::Level::Warn, log::Level::Warn) => true,
            (log::Level::Info, log::Level::Info) => true,
            (log::Level::Debug, log::Level::Debug) => true,
            (log::Level::Trace, log::Level::Trace) => true,
            _ => false,
        }
    }
}

impl Clone for LogLevel {
    fn clone(&self) -> (copy: LogLevel)
        ensures
            copy == *self,
    {
        LogLevel(self.0)
    }
}

impl Deref for LogLevel {
    type Target = log::Level;

    fn deref(&self) -> (level: &log::Level)
        ensures
            *level == self.0,
    {
        &self.0
    }
}

impl FromStr for LogLevel {
    type Err = log::ParseLevelError;

    /// Reads a level from its name, in any mix of ASCII case.
    fn from_str(s: &str) -> (result: Result<LogLevel, log::ParseLevelError>)
        ensures
            match result {
                Ok(level) => equal_ignoring_case(s@, level_name(level.0)),
                Err(_) => forall|level: log::Level|
                    !equal_ignoring_case(s@, #[trigger] level_name(level)),
            },
    {
        match parse_level(s) {
            Ok(level) => Ok(LogLevel(level)),
            Err(e) => Err(e),
        }
    }
}

impl From<log::Level> for LogLevel {
    fn from(level: log::Level) -> (wrapped: LogLevel) {
        LogLevel(level)
    }
}

impl FromSpecImpl<log::Level> for LogLevel {
    open spec fn obeys_from_spec() -> bool {
        true
    }

    open spec fn from_spec(level: log::Level) -> LogLevel {
        LogLevel(level)
    }
}

impl From<LogLevel> for log::Level {
    fn from(level: LogLevel) -> (inner: log::Level) {
        level.0
    }
}

impl FromSpecImpl<LogLevel> for log::Level {
    open spec fn obeys_from_spec() -> bool {
        true
    }

    open spec fn from_spec(level: LogLevel) -> log::Level {
        level.0
    }
}

/// A text is read as at most one level, and the name of a level as that level.
pub proof fn text_names_one_level(s: Seq<char>, a: log::Level, b: log::Level)
    requires
        equal_ignoring_case(s, level_name(a)),
    ensures
        equal_ignoring_case(s, level_name(b)) ==> a == b,
        equal_ignoring_case(level_name(b), level_name(b)),
{
    reveal_strlit("ERROR");
    reveal_strlit("WARN");
    reveal_strlit("INFO");
    reveal_strlit("DEBUG");
    reveal_strlit("TRACE");
    assert(ascii_lower(s[0]) == ascii_lower(level_name(a)[0]));
    if equal_ignoring_case(s, level_name(b)) {
        assert(ascii_lower(s[0]) == ascii_lower(level_name(b)[0]));
    }
}

/// The names of the levels.
pub proof fn names_of_levels()
    ensures
        level_name(log::Level::Error) == "ERROR"@,
        level_name(log::Level::Warn) == "WARN"@,
        level_name(log::Level::Info) == "INFO"@,
        level_name(log::Level::Debug) == "DEBUG"@,
        level_name(log::Level::Trace) == "TRACE"@,
{
}

/// Texts that are equal with case ignored are equally long, and at each place they have the
/// same character or the two cases of one ASCII letter.
pub proof fn case_is_all_that_differs(a: Seq<char>, b: Seq<char>)
    ensures
        equal_ignoring_case(a, b) <==> a.len() == b.len() && forall|i: int|
            0 <= i < a.len() ==> {
                let (c, d) = (#[trigger] a[i], b[i]);
                ||| c == d
                ||| 'A' <= c <= 'Z' && d as int == c as int + 32
                ||| 'A' <= d <= 'Z' && c as int == d as int + 32
            },
{
    if a.len() == b.len() {
        assert forall|i: int| 0 <= i < a.len() implies (ascii_lower(#[trigger] a[i]) == ascii_lower(
            b[i],
        ) <==> {
            let (c, d) = (a[i], b[i]);
            ||| c == d
            ||| 'A' <= c <= 'Z' && d as int == c as int + 32
            ||| 'A' <= d <= 'Z' && c as int == d as int + 32
        }) by {}
    }
}

} // verus!
