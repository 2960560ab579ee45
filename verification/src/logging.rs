//! Log levels: their names, how a level is read from text, and which messages a minimum
//! level lets through. Writing the log line is the caller's.

use vstd::prelude::*;

use crate::text;

verus! {

/// A log level, from the most verbose to the most severe.
#[derive(Debug, Clone, Copy, PartialEq, Eq, Structural)]
pub enum Level {
    Trace,
    Debug,
    Info,
    Warn,
    Error,
}

/// The severity rank of a level: `Trace` lowest, `Error` highest.
pub open spec fn rank(l: Level) -> nat {
    match l {
        Level::Trace => 0,
        Level::Debug => 1,
        Level::Info => 2,
        Level::Warn => 3,
        Level::Error => 4,
    }
}

/// The name a level is written with.
pub open spec fn level_name(l: Level) -> Seq<char> {
    match l {
        Level::Trace => "TRACE"@,
        Level::Debug => "DEBUG"@,
        Level::Info => "INFO"@,
        Level::Warn => "WARN"@,
        Level::Error => "ERROR"@,
    }
}

/// The level a lower-cased name denotes.
pub open spec fn level_of(lower: Seq<char>) -> Option<Level> {
    if lower == "trace"@ {
        Some(Level::Trace)
    } else if lower == "debug"@ {
        Some(Level::Debug)
    } else if lower == "info"@ {
        Some(Level::Info)
    } else if lower == "warn"@ {
        Some(Level::Warn)
    } else if lower == "error"@ {
        Some(Level::Error)
    } else {
        None
    }
}

impl Level {
    /// The name this level is written with (`TRACE`, `DEBUG`, `INFO`, `WARN`, `ERROR`).
    pub fn label(&self) -> (r: &'static str)
        ensures
            r@ == level_name(*self),
    {
        match self {
            Level::Trace => "TRACE",
            Level::Debug => "DEBUG",
            Level::Info => "INFO",
            Level::Warn => "WARN",
            Level::Error => "ERROR",
        }
    }

    /// The severity rank of this level.
    pub fn rank(&self) -> (r: u8)
        ensures
            r as nat == rank(*self),
    {
        match self {
            Level::Trace => 0,
            Level::Debug => 1,
            Level::Info => 2,
            Level::Warn => 3,
            Level::Error => 4,
        }
    }
}

/// Read a level name, ignoring case; `None` for any other text.
pub fn parse_level(s: &str) -> (r: Option<Level>)
    ensures
        r == level_of(text::lowercase(s@)),
        text::is_ascii_text(s@) ==> r == level_of(s@.map_values(|c: char| text::ascii_lower(c))),
{
    let lower = text::to_lowercase(s);
    let l = lower.as_str();
    if text::str_eq(l, "trace") {
        Some(Level::Trace)
    } else if text::str_eq(l, "debug") {
        Some(Level::Debug)
    } else if text::str_eq(l, "info") {
        Some(Level::Info)
    } else if text::str_eq(l, "warn") {
        Some(Level::Warn)
    } else if text::str_eq(l, "error") {
        Some(Level::Error)
    } else {
        None
    }
}

/// The level logging runs at: the one the setting names, else `Info`.
pub fn min_level(setting: Option<&str>) -> (r: Level)
    ensures
        r == match setting {
            Some(s) => match level_of(text::lowercase(s@)) { Some(l) => l, None => Level::Info },
            None => Level::Info,
        },
{
    match setting {
        Some(s) => match parse_level(s) {
            Some(l) => l,
            None => Level::Info,
        },
        None => Level::Info,
    }
}

/// Whether a message at `level` is written when the minimum is `min`: exactly when it is
/// at least as severe.
pub fn enabled(level: Level, min: Level) -> (r: bool)
    ensures
        r == (rank(level) >= rank(min)),
{
    level.rank() >= min.rank()
}

/// The log line of a message: `[fastermail] [LEVEL] [target] message`.
pub fn log_line(level: Level, target: &str, message: &str) -> (r: String)
    ensures
        r@ == "[fastermail] ["@ + level_name(level) + "] ["@ + target@ + "] "@ + message@,
{
    let a = text::concat3("[fastermail] [", level.label(), "] [");
    let b = text::concat3(a.as_str(), target, "] ");
    text::concat(b.as_str(), message)
}

/// Each level is written as its own name in capitals: `TRACE`, `DEBUG`, `INFO`, `WARN`,
/// `ERROR`.
pub proof fn law_level_written_names(l: Level)
    ensures
        l is Trace ==> level_name(l) == "TRACE"@,
        l is Debug ==> level_name(l) == "DEBUG"@,
        l is Info ==> level_name(l) == "INFO"@,
        l is Warn ==> level_name(l) == "WARN"@,
        l is Error ==> level_name(l) == "ERROR"@,
{
}

/// A level's written name reads back as that level: `parse_level` of `level_name(l)`
/// gives `l`.
pub proof fn law_level_name_round_trip(l: Level)
    ensures
        level_of(level_name(l).map_values(|c: char| text::ascii_lower(c))) == Some(l),
        text::is_ascii_text(level_name(l)),
{
    reveal_strlit("TRACE");
    reveal_strlit("DEBUG");
    reveal_strlit("INFO");
    reveal_strlit("WARN");
    reveal_strlit("ERROR");
    reveal_strlit("trace");
    reveal_strlit("debug");
    reveal_strlit("info");
    reveal_strlit("warn");
    reveal_strlit("error");
    let n = level_name(l);
    let m = n.map_values(|c: char| text::ascii_lower(c));
    match l {
        Level::Trace => { assert(m =~= "trace"@); },
        Level::Debug => {
            assert(m =~= "debug"@);
            assert("debug"@[0] != "trace"@[0]);
        },
        Level::Info => {
            assert(m =~= "info"@);
            assert("info"@.len() != "trace"@.len() && "info"@.len() != "debug"@.len());
        },
        Level::Warn => {
            assert(m =~= "warn"@);
            assert("warn"@.len() != "trace"@.len() && "warn"@.len() != "debug"@.len() && "warn"@[0] != "info"@[0]);
        },
        Level::Error => {
            assert(m =~= "error"@);
            assert("error"@[0] != "trace"@[0] && "error"@[0] != "debug"@[0] && "error"@.len() != "info"@.len() && "error"@.len() != "warn"@.len());
        },
    }
}

} // verus!
