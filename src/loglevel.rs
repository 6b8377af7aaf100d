use vstd::prelude::*;
use crate::text::same_text;

verus! {

/// The log verbosity that the `/api/log` endpoint reads and sets.
#[derive(Debug, Clone, Copy, PartialEq, Eq, Structural)]
pub enum LogLevel {
    Off,
    Error,
    Warn,
    Info,
    Debug,
    Trace,
}

/// The name of each level.
pub open spec fn level_name_of(l: LogLevel) -> Seq<char> {
    match l {
        LogLevel::Off => "Off"@,
        LogLevel::Error => "Error"@,
        LogLevel::Warn => "Warn"@,
        LogLevel::Info => "Info"@,
        LogLevel::Debug => "Debug"@,
        LogLevel::Trace => "Trace"@,
    }
}

/// The level with the given name (exact, case-sensitive), if any.
pub open spec fn level_named(s: Seq<char>) -> Option<LogLevel> {
    if s == "Off"@ {
        Some(LogLevel::Off)
    } else if s == "Error"@ {
        Some(LogLevel::Error)
    } else if s == "Warn"@ {
        Some(LogLevel::Warn)
    } else if s == "Info"@ {
        Some(LogLevel::Info)
    } else if s == "Debug"@ {
        Some(LogLevel::Debug)
    } else if s == "Trace"@ {
        Some(LogLevel::Trace)
    } else {
        None
    }
}

/// The name of `l`, as the endpoint reports it.
pub fn level_name(l: LogLevel) -> (r: &'static str)
    ensures
        r@ == level_name_of(l),
{
    match l {
        LogLevel::Off => "Off",
        LogLevel::Error => "Error",
        LogLevel::Warn => "Warn",
        LogLevel::Info => "Info",
        LogLevel::Debug => "Debug",
        LogLevel::Trace => "Trace",
    }
}

/// The level that the query value `s` names, if any.
pub fn parse_level(s: &str) -> (r: Option<LogLevel>)
    ensures
        r == level_named(s@),
{
    if same_text(s, "Off") {
        Some(LogLevel::Off)
    } else if same_text(s, "Error") {
        Some(LogLevel::Error)
    } else if same_text(s, "Warn") {
        Some(LogLevel::Warn)
    } else if same_text(s, "Info") {
        Some(LogLevel::Info)
    } else if same_text(s, "Debug") {
        Some(LogLevel::Debug)
    } else if same_text(s, "Trace") {
        Some(LogLevel::Trace)
    } else {
        None
    }
}

/// Every level's name reads back as that level.
pub proof fn lemma_level_name_round_trip(l: LogLevel)
    ensures
        level_named(level_name_of(l)) == Some(l),
{
    reveal_strlit("Off");
    reveal_strlit("Error");
    reveal_strlit("Warn");
    reveal_strlit("Info");
    reveal_strlit("Debug");
    reveal_strlit("Trace");
    assert("Off"@[0] == 'O');
    assert("Error"@[0] == 'E');
    assert("Warn"@[0] == 'W');
    assert("Info"@[0] == 'I');
    assert("Debug"@[0] == 'D');
    assert("Trace"@[0] == 'T');
}

} // verus!
