//! The log level that the server runs with.
use vstd::prelude::*;
use std::str::FromStr;

verus! {

/// A maximum log level (the levels of `log::LevelFilter`).
#[derive(Clone, Copy, Debug, PartialEq, Eq)]
pub enum LogLevel {
    Off,
    Error,
    Warn,
    Info,
    Debug,
    Trace,
}

/// The code of `c`, with ASCII capitals taken as small letters.
pub open spec fn ascii_lower(c: char) -> u32 {
    if 65 <= c as u32 <= 90 {
        (c as u32 + 32) as u32
    } else {
        c as u32
    }
}

/// `a` and `b` are the same text up to ASCII case.
pub open spec fn eq_ignore_ascii_case(a: Seq<char>, b: Seq<char>) -> bool {
    a.len() == b.len() && forall|i: int| 0 <= i < a.len() ==> ascii_lower(#[trigger] a[i])
        == ascii_lower(b[i])
}

/// The level that `name` names, ignoring ASCII case, as `log` reads one.
pub open spec fn level_named(name: Seq<char>) -> Option<LogLevel> {
    if eq_ignore_ascii_case(name, "OFF"@) {
        Some(LogLevel::Off)
    } else if eq_ignore_ascii_case(name, "ERROR"@) {
        Some(LogLevel::Error)
    } else if eq_ignore_ascii_case(name, "WARN"@) {
        Some(LogLevel::Warn)
    } else if eq_ignore_ascii_case(name, "INFO"@) {
        Some(LogLevel::Info)
    } else if eq_ignore_ascii_case(name, "DEBUG"@) {
        Some(LogLevel::Debug)
    } else if eq_ignore_ascii_case(name, "TRACE"@) {
        Some(LogLevel::Trace)
    } else {
        None
    }
}

/// `log::LevelFilter::from_str`: the level among `OFF`, `ERROR`, `WARN`,
/// `INFO`, `DEBUG`, `TRACE` that equals `name` up to ASCII case.
#[verifier::external_body]
fn parse_level_filter(name: &str) -> (r: Option<LogLevel>)
    ensures
        r == level_named(name@),
{
    match log::LevelFilter::from_str(name) {
        Ok(log::LevelFilter::Off) => Some(LogLevel::Off),
        Ok(log::LevelFilter::Error) => Some(LogLevel::Error),
        Ok(log::LevelFilter::Warn) => Some(LogLevel::Warn),
        Ok(log::LevelFilter::Info) => Some(LogLevel::Info),
        Ok(log::LevelFilter::Debug) => Some(LogLevel::Debug),
        Ok(log::LevelFilter::Trace) => Some(LogLevel::Trace),
        Err(_) => None,
    }
}

/// The maximum log level for a configured level name: the level it names,
/// or `Info` where it names none.
pub fn max_log_level(name: &str) -> (l: LogLevel)
    ensures
        l == (match level_named(name@) {
            Some(x) => x,
            None => LogLevel::Info,
        }),
{
    match parse_level_filter(name) {
        Some(l) => l,
        None => LogLevel::Info,
    }
}

} // verus!

verus! {

/// Each log level that configuration validation accepts selects its own
/// level for the logger, so a valid configuration never falls back to the
/// default.
pub proof fn law_valid_levels_select_themselves(name: Seq<char>)
    requires
        crate::config::validation::is_log_level(name),
    ensures
        level_named(name) == (if name == "trace"@ {
            Some(LogLevel::Trace)
        } else if name == "debug"@ {
            Some(LogLevel::Debug)
        } else if name == "info"@ {
            Some(LogLevel::Info)
        } else if name == "warn"@ {
            Some(LogLevel::Warn)
        } else {
            Some(LogLevel::Error)
        }),
{
    reveal_strlit("trace");
    reveal_strlit("debug");
    reveal_strlit("info");
    reveal_strlit("warn");
    reveal_strlit("error");
    reveal_strlit("OFF");
    reveal_strlit("ERROR");
    reveal_strlit("WARN");
    reveal_strlit("INFO");
    reveal_strlit("DEBUG");
    reveal_strlit("TRACE");
    if name == "trace"@ {
        assert(ascii_lower(name[0]) != ascii_lower("ERROR"@[0]));
        assert(ascii_lower(name[0]) != ascii_lower("DEBUG"@[0]));
        assert(eq_ignore_ascii_case(name, "TRACE"@));
    } else if name == "debug"@ {
        assert(ascii_lower(name[0]) != ascii_lower("ERROR"@[0]));
        assert(eq_ignore_ascii_case(name, "DEBUG"@));
    } else if name == "info"@ {
        assert(ascii_lower(name[0]) != ascii_lower("WARN"@[0]));
        assert(eq_ignore_ascii_case(name, "INFO"@));
    } else if name == "warn"@ {
        assert(eq_ignore_ascii_case(name, "WARN"@));
    } else {
        assert(eq_ignore_ascii_case(name, "ERROR"@));
    }
}

} // verus!
