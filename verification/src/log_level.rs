//! Log levels: their names, their order of severity, and how they are read
//! from configuration text and from foreign callers.

use crate::text::chars_of;
use vstd::prelude::*;

verus! {

/// The log levels, from least to most severe.
#[derive(PartialEq, Eq, Structural, Clone, Copy, Debug)]
pub enum DMSCLogLevel {
    Debug,
    Info,
    Warn,
    Error,
}

/// The upper-case name of each level.
pub open spec fn level_name(l: DMSCLogLevel) -> Seq<char> {
    match l {
        DMSCLogLevel::Debug => "DEBUG"@,
        DMSCLogLevel::Info => "INFO"@,
        DMSCLogLevel::Warn => "WARN"@,
        DMSCLogLevel::Error => "ERROR"@,
    }
}

/// The rank of each level in the order of severity.
pub open spec fn level_rank(l: DMSCLogLevel) -> int {
    match l {
        DMSCLogLevel::Debug => 0,
        DMSCLogLevel::Info => 1,
        DMSCLogLevel::Warn => 2,
        DMSCLogLevel::Error => 3,
    }
}

impl DMSCLogLevel {
    /// The level's upper-case name: "DEBUG", "INFO", "WARN" or "ERROR".
    pub fn as_str(&self) -> (s: &'static str)
        ensures
            s@ == level_name(*self),
    {
        match self {
            DMSCLogLevel::Debug => "DEBUG",
            DMSCLogLevel::Info => "INFO",
            DMSCLogLevel::Warn => "WARN",
            DMSCLogLevel::Error => "ERROR",
        }
    }

    /// The level's rank in the order of severity, Debug lowest.
    pub fn rank(&self) -> (r: u8)
        ensures
            r == level_rank(*self),
    {
        match self {
            DMSCLogLevel::Debug => 0,
            DMSCLogLevel::Info => 1,
            DMSCLogLevel::Warn => 2,
            DMSCLogLevel::Error => 3,
        }
    }
}

/// Whether a message of level `level` passes the threshold `threshold`:
/// only when it is at least as severe.
pub open spec fn passes(threshold: DMSCLogLevel, level: DMSCLogLevel) -> bool {
    level_rank(level) >= level_rank(threshold)
}

/// Whether a logger whose threshold is `threshold` writes a message of
/// level `level`: only when the message is at least as severe.
pub fn should_log(threshold: DMSCLogLevel, level: DMSCLogLevel) -> (yes: bool)
    ensures
        yes == passes(threshold, level),
{
    level.rank() >= threshold.rank()
}

/// The level that a foreign caller passes as an ordinal; an ordinal out of
/// range stands for `Info`.
pub fn level_from_ordinal(ordinal: i32) -> (l: DMSCLogLevel)
    ensures
        ordinal == 0 ==> l == DMSCLogLevel::Debug,
        ordinal == 2 ==> l == DMSCLogLevel::Warn,
        ordinal == 3 ==> l == DMSCLogLevel::Error,
        ordinal != 0 && ordinal != 2 && ordinal != 3 ==> l == DMSCLogLevel::Info,
{
    match ordinal {
        0 => DMSCLogLevel::Debug,
        1 => DMSCLogLevel::Info,
        2 => DMSCLogLevel::Warn,
        3 => DMSCLogLevel::Error,
        _ => DMSCLogLevel::Info,
    }
}

/// The level that a configuration's "log.level" text names: the upper- or
/// lower-case name of a level, or "WARNING"/"warning" for `Warn`.
pub open spec fn config_level(s: Seq<char>) -> Option<DMSCLogLevel> {
    if s == "DEBUG"@ || s == "debug"@ {
        Some(DMSCLogLevel::Debug)
    } else if s == "INFO"@ || s == "info"@ {
        Some(DMSCLogLevel::Info)
    } else if s == "WARN"@ || s == "warn"@ || s == "WARNING"@ || s == "warning"@ {
        Some(DMSCLogLevel::Warn)
    } else if s == "ERROR"@ || s == "error"@ {
        Some(DMSCLogLevel::Error)
    } else {
        None
    }
}

/// Reads the level that a configuration names; other text names none, and
/// the configured level is then kept.
pub fn parse_config_level(s: &str) -> (l: Option<DMSCLogLevel>)
    ensures
        l == config_level(s@),
{
    let v = chars_of(s);
    if eq_chars(&v, "DEBUG") || eq_chars(&v, "debug") {
        Some(DMSCLogLevel::Debug)
    } else if eq_chars(&v, "INFO") || eq_chars(&v, "info") {
        Some(DMSCLogLevel::Info)
    } else if eq_chars(&v, "WARN") || eq_chars(&v, "warn") || eq_chars(&v, "WARNING") || eq_chars(&v, "warning") {
        Some(DMSCLogLevel::Warn)
    } else if eq_chars(&v, "ERROR") || eq_chars(&v, "error") {
        Some(DMSCLogLevel::Error)
    } else {
        None
    }
}

/// Whether the characters `v` spell `lit`.
fn eq_chars(v: &Vec<char>, lit: &str) -> (same: bool)
    ensures
        same == (v@ == lit@),
{
    let w = chars_of(lit);
    if v.len() != w.len() {
        return false;
    }
    let mut i: usize = 0;
    while i < v.len()
        invariant
            v@.len() == w@.len(),
            w@ == lit@,
            i <= v@.len(),
            forall|j: int| 0 <= j < i ==> v@[j] == w@[j],
        decreases v@.len() - i,
    {
        if v[i] != w[i] {
            return false;
        }
        i = i + 1;
    }
    assert(v@ =~= w@);
    true
}

/// Error messages pass every threshold, a message at the threshold's own
/// level passes it, and raising the threshold never lets more through.
pub proof fn law_threshold_monotone(low: DMSCLogLevel, high: DMSCLogLevel, level: DMSCLogLevel)
    requires
        level_rank(low) <= level_rank(high),
    ensures
        passes(low, DMSCLogLevel::Error),
        passes(high, high),
        passes(high, level) ==> passes(low, level),
{
}

/// The levels are strictly ordered by severity, Debug below Info below Warn
/// below Error: of two different levels exactly one passes the threshold of
/// the other, so a message below the threshold is never written.
pub proof fn law_levels_strictly_ordered(a: DMSCLogLevel, b: DMSCLogLevel)
    ensures
        a != b ==> (passes(a, b) != passes(b, a)),
        !passes(DMSCLogLevel::Info, DMSCLogLevel::Debug),
        !passes(DMSCLogLevel::Warn, DMSCLogLevel::Info),
        !passes(DMSCLogLevel::Error, DMSCLogLevel::Warn),
        passes(DMSCLogLevel::Debug, a),
        passes(a, DMSCLogLevel::Error),
{
}

/// The name of every level reads back as that level.
pub proof fn law_name_reads_back(l: DMSCLogLevel)
    ensures
        config_level(level_name(l)) == Some(l),
{
    reveal_strlit("DEBUG");
    reveal_strlit("debug");
    reveal_strlit("INFO");
    reveal_strlit("info");
    reveal_strlit("WARN");
    reveal_strlit("warn");
    reveal_strlit("WARNING");
    reveal_strlit("warning");
    reveal_strlit("ERROR");
    reveal_strlit("error");
    match l {
        DMSCLogLevel::Debug => {},
        DMSCLogLevel::Info => {
            assert("INFO"@.len() != "DEBUG"@.len());
            assert("INFO"@.len() != "debug"@.len());
        },
        DMSCLogLevel::Warn => {
            assert("WARN"@.len() != "DEBUG"@.len());
            assert("WARN"@.len() != "debug"@.len());
            assert("WARN"@[0] != "INFO"@[0]);
            assert("WARN"@[0] != "info"@[0]);
        },
        DMSCLogLevel::Error => {
            assert("ERROR"@[0] != "DEBUG"@[0]);
            assert("ERROR"@[0] != "debug"@[0]);
            assert("ERROR"@.len() != "INFO"@.len());
            assert("ERROR"@.len() != "info"@.len());
            assert("ERROR"@.len() != "WARN"@.len());
            assert("ERROR"@.len() != "warn"@.len());
            assert("ERROR"@.len() != "WARNING"@.len());
            assert("ERROR"@.len() != "warning"@.len());
        },
    }
}

} // verus!
