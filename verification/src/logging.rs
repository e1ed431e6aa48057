//! The log level named in the configuration.
use vstd::prelude::*;
use crate::text::{ascii_lower, eq_ignore_ascii_case};

verus! {

/// Verbosity of the log.
#[derive(Debug, Clone, Copy, PartialEq, Eq, Structural)]
pub enum LogLevel {
    Trace,
    Debug,
    Info,
    Warn,
    Error,
}

/// The level a configuration names: `trace`, `debug`, `info`, `warn` or
/// `error` in any case, and `info` for anything else.
pub open spec fn level_named(name: Seq<char>) -> LogLevel {
    let lower = ascii_lower(name);
    if lower == "trace"@ {
        LogLevel::Trace
    } else if lower == "debug"@ {
        LogLevel::Debug
    } else if lower == "info"@ {
        LogLevel::Info
    } else if lower == "warn"@ {
        LogLevel::Warn
    } else if lower == "error"@ {
        LogLevel::Error
    } else {
        LogLevel::Info
    }
}

/// The level a configuration names. The names are matched ignoring ASCII
/// case, which for these five words is the same as comparing
/// `name.to_lowercase()`: the only characters outside ASCII whose lower
/// case is an ASCII letter are the Kelvin sign (to `k`) and the dotted
/// capital I (to `i` and a combining dot), and neither can make one of
/// the five words.
pub fn level_filter(name: &str) -> (level: LogLevel)
    ensures
        level == level_named(name@),
{
    proof {
        reveal_strlit("trace");
        reveal_strlit("debug");
        reveal_strlit("info");
        reveal_strlit("warn");
        reveal_strlit("error");
        assert(ascii_lower("trace"@) =~= "trace"@);
        assert(ascii_lower("debug"@) =~= "debug"@);
        assert(ascii_lower("info"@) =~= "info"@);
        assert(ascii_lower("warn"@) =~= "warn"@);
        assert(ascii_lower("error"@) =~= "error"@);
    }
    if eq_ignore_ascii_case(name, "trace") {
        LogLevel::Trace
    } else if eq_ignore_ascii_case(name, "debug") {
        LogLevel::Debug
    } else if eq_ignore_ascii_case(name, "info") {
        LogLevel::Info
    } else if eq_ignore_ascii_case(name, "warn") {
        LogLevel::Warn
    } else if eq_ignore_ascii_case(name, "error") {
        LogLevel::Error
    } else {
        LogLevel::Info
    }
}

} // verus!
