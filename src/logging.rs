use vstd::prelude::*;
use vstd::string::StringExecFns;

verus! {

/// The severity threshold of the runtime's log, most quiet first.
#[derive(Clone, Copy, Debug, PartialEq, Eq, Structural)]
pub enum LogLevel {
    Off,
    Error,
    Warn,
    Info,
    Debug,
    Trace,
}

/// Where the runtime's log goes.
#[derive(Debug, PartialEq, Eq)]
pub enum LogTarget {
    Stdout,
    Stderr,
    File(String),
}

/// The level names, in lower case, in order of `LogLevel`.
pub open spec fn level_name(i: int) -> Seq<char> {
    if i == 0 {
        seq!['o', 'f', 'f']
    } else if i == 1 {
        seq!['e', 'r', 'r', 'o', 'r']
    } else if i == 2 {
        seq!['w', 'a', 'r', 'n']
    } else if i == 3 {
        seq!['i', 'n', 'f', 'o']
    } else if i == 4 {
        seq!['d', 'e', 'b', 'u', 'g']
    } else {
        seq!['t', 'r', 'a', 'c', 'e']
    }
}

/// `s` spells the lower-case word `w` up to ASCII case.
pub open spec fn spells(s: Seq<char>, w: Seq<char>) -> bool {
    &&& s.len() == w.len()
    &&& forall|i: int| 0 <= i < s.len() ==> s[i] == w[i] || s[i] as u32 + 32 == w[i] as u32
}

/// The position of the level that `s` names, if any.
pub open spec fn level_index(s: Seq<char>) -> Option<usize> {
    if spells(s, level_name(0)) {
        Some(0)
    } else if spells(s, level_name(1)) {
        Some(1)
    } else if spells(s, level_name(2)) {
        Some(2)
    } else if spells(s, level_name(3)) {
        Some(3)
    } else if spells(s, level_name(4)) {
        Some(4)
    } else if spells(s, level_name(5)) {
        Some(5)
    } else {
        None
    }
}

pub open spec fn level_at(i: usize) -> LogLevel {
    if i == 0 {
        LogLevel::Off
    } else if i == 1 {
        LogLevel::Error
    } else if i == 2 {
        LogLevel::Warn
    } else if i == 3 {
        LogLevel::Info
    } else if i == 4 {
        LogLevel::Debug
    } else {
        LogLevel::Trace
    }
}

/// Relies on `FromStr for log::LevelFilter`: it matches the names "OFF",
/// "ERROR", "WARN", "INFO", "DEBUG", "TRACE" ignoring ASCII case, and gives
/// the position of the one matched, which is the filter's `usize` value.
#[verifier::external_body]
fn parse_level_filter(s: &str) -> (r: Option<usize>)
    ensures
        r == level_index(s@),
{
    <log::LevelFilter as std::str::FromStr>::from_str(s).ok().map(|l| l as usize)
}

/// Parses a level name, ignoring ASCII case.
pub fn parse_level(s: &str) -> (r: Option<LogLevel>)
    ensures
        r is Some <==> level_index(s@) is Some,
        r matches Some(l) ==> l == level_at(level_index(s@)->Some_0),
{
    match parse_level_filter(s) {
        Some(0) => Some(LogLevel::Off),
        Some(1) => Some(LogLevel::Error),
        Some(2) => Some(LogLevel::Warn),
        Some(3) => Some(LogLevel::Info),
        Some(4) => Some(LogLevel::Debug),
        Some(_) => Some(LogLevel::Trace),
        None => None,
    }
}

pub open spec fn stdout_names(s: Seq<char>) -> bool {
    s == seq!['-'] || s == seq!['s', 't', 'd', 'o', 'u', 't']
}

pub open spec fn stderr_name() -> Seq<char> {
    seq!['s', 't', 'd', 'e', 'r', 'r']
}

/// `t` is the sink that the file name `file` selects.
pub open spec fn target_for(t: LogTarget, file: Option<&str>) -> bool {
    match file {
        None => t is Stderr,
        Some(f) => if stdout_names(f@) {
            t is Stdout
        } else if f@ == stderr_name() {
            t is Stderr
        } else {
            t matches LogTarget::File(p) && p@ == f@
        },
    }
}

fn text_is(s: &str, t: &str) -> (r: bool)
    ensures
        r == (s@ == t@),
{
    String::from_str(s) == String::from_str(t)
}

/// Picks the log sink for a file name: `-` and `stdout` name standard
/// output, `stderr` or no name standard error, anything else a file.
pub fn log_target(file: Option<&str>) -> (r: LogTarget)
    ensures
        target_for(r, file),
{
    proof {
        reveal_strlit("-");
        reveal_strlit("stdout");
        reveal_strlit("stderr");
    }
    assert("-"@ =~= seq!['-']);
    assert("stdout"@ =~= seq!['s', 't', 'd', 'o', 'u', 't']);
    assert("stderr"@ =~= stderr_name());
    match file {
        None => LogTarget::Stderr,
        Some(f) => if text_is(f, "-") || text_is(f, "stdout") {
            LogTarget::Stdout
        } else if text_is(f, "stderr") {
            LogTarget::Stderr
        } else {
            LogTarget::File(String::from_str(f))
        },
    }
}

/// The log settings for an optional file name and an optional level name;
/// the level defaults to `error`. `None` where the level name is unknown.
pub fn log_settings(file: Option<&str>, level: Option<&str>) -> (r: Option<(LogTarget, LogLevel)>)
    ensures
        level is None ==> (r matches Some((_, l)) && l == LogLevel::Error),
        level matches Some(n) ==> (r is Some <==> level_index(n@) is Some),
        level matches Some(n) ==> (r matches Some((_, l)) ==> l == level_at(
            level_index(n@)->Some_0,
        )),
        r matches Some((t, _)) ==> target_for(t, file),
{
    let l = match level {
        None => LogLevel::Error,
        Some(n) => match parse_level(n) {
            Some(l) => l,
            None => return None,
        },
    };
    Some((log_target(file), l))
}

} // verus!
