//! The logger's settings read from configuration values, and the schedule
//! on which the background writer flushes cached entries.

use crate::log_level::{config_level, parse_config_level, DMSCLogLevel};
use crate::text::{eq_ignore_ascii_case, eq_ignoring_ascii_case};
use vstd::prelude::*;

verus! {

/// The name of the log file when none is configured.
pub open spec fn default_file_name() -> Seq<char> {
    "dms.log"@
}

/// The rotation policy when none is configured.
pub open spec fn default_rotate_when() -> Seq<char> {
    "size"@
}

/// The size at which a log file is rotated when none is configured: 10 MiB.
pub const DEFAULT_MAX_BYTES: u64 = 10485760;

/// How long the background writer lets cached entries wait, in
/// milliseconds, before it writes them.
pub const FLUSH_INTERVAL_MS: u64 = 500;

/// How many cached entries make the background writer write them at once.
pub const CACHE_SIZE_LIMIT: usize = 1000;

/// The logger's settings, but for the sampling rate.
pub struct RiLogSettings {
    /// The least severe level that is written.
    pub level: DMSCLogLevel,
    /// Whether lines are also written to the console.
    pub console_enabled: bool,
    /// Whether lines are written to the log file.
    pub file_enabled: bool,
    /// The name of the log file.
    pub file_name: String,
    /// Whether lines are written as JSON objects rather than text.
    pub json_format: bool,
    /// When the log file is rotated: "size" (in any ASCII case) rotates it
    /// by size.
    pub rotate_when: String,
    /// The size in bytes at which the log file is rotated.
    pub max_bytes: u64,
}

impl Default for RiLogSettings {
    /// Level `Info`, console and file output on, file "dms.log", text lines,
    /// rotation by size at 10 MiB.
    fn default() -> (s: Self)
        ensures
            s.level == DMSCLogLevel::Info,
            s.console_enabled,
            s.file_enabled,
            s.file_name@ == default_file_name(),
            !s.json_format,
            s.rotate_when@ == default_rotate_when(),
            s.max_bytes == DEFAULT_MAX_BYTES,
    {
        RiLogSettings {
            level: DMSCLogLevel::Info,
            console_enabled: true,
            file_enabled: true,
            file_name: "dms.log".to_owned(),
            json_format: false,
            rotate_when: "size".to_owned(),
            max_bytes: DEFAULT_MAX_BYTES,
        }
    }
}

/// The settings that configuration values give over the defaults: a level
/// name that `config_level` reads; a file name or rotation policy that is
/// not empty; "json" in any ASCII case as file format; a size limit above
/// zero; and the two output switches. A value that is absent, or not one of
/// these, leaves the default.
pub fn log_settings_from(
    level: Option<String>,
    file_name: Option<String>,
    file_format: Option<String>,
    rotate_when: Option<String>,
    max_bytes: Option<u64>,
    console_enabled: Option<bool>,
    file_enabled: Option<bool>,
) -> (s: RiLogSettings)
    ensures
        s.level == (match level {
            Some(t) => match config_level(t@) {
                Some(l) => l,
                None => DMSCLogLevel::Info,
            },
            None => DMSCLogLevel::Info,
        }),
        s.file_name@ == (match file_name {
            Some(f) => if f@.len() > 0 { f@ } else { default_file_name() },
            None => default_file_name(),
        }),
        s.json_format == (match file_format {
            Some(f) => eq_ignoring_ascii_case(f@, "json"@),
            None => false,
        }),
        s.rotate_when@ == (match rotate_when {
            Some(r) => if r@.len() > 0 { r@ } else { default_rotate_when() },
            None => default_rotate_when(),
        }),
        s.max_bytes == (match max_bytes {
            Some(v) => if v > 0 { v } else { DEFAULT_MAX_BYTES },
            None => DEFAULT_MAX_BYTES,
        }),
        s.console_enabled == (match console_enabled {
            Some(b) => b,
            None => true,
        }),
        s.file_enabled == (match file_enabled {
            Some(b) => b,
            None => true,
        }),
{
    let mut s = RiLogSettings::default();
    if let Some(t) = level {
        if let Some(l) = parse_config_level(t.as_str()) {
            s.level = l;
        }
    }
    if let Some(f) = file_name {
        if f.unicode_len() > 0 {
            s.file_name = f;
        }
    }
    if let Some(f) = file_format {
        if eq_ignore_ascii_case(f.as_str(), "json") {
            s.json_format = true;
        }
    }
    if let Some(r) = rotate_when {
        if r.unicode_len() > 0 {
            s.rotate_when = r;
        }
    }
    if let Some(v) = max_bytes {
        if v > 0 {
            s.max_bytes = v;
        }
    }
    if let Some(b) = console_enabled {
        s.console_enabled = b;
    }
    if let Some(b) = file_enabled {
        s.file_enabled = b;
    }
    s
}

/// What the background writer does when it wakes.
#[derive(PartialEq, Eq, Structural, Clone, Copy, Debug)]
pub enum RiFlushAction {
    /// Write nothing yet and wait again.
    Wait,
    /// Write the cached entries, then wait again.
    Flush,
    /// Write the cached entries and stop: the logger is shutting down.
    FlushAndStop,
}

/// The writer's decision on waking, `elapsed_ms` after its last flush with
/// `cache_len` entries cached: at shutdown it writes what is left and
/// stops; otherwise it writes once `interval_ms` have passed or the cache
/// has reached `limit` entries, and else waits.
pub fn flush_step(shutdown: bool, elapsed_ms: u64, cache_len: usize, interval_ms: u64, limit: usize) -> (a: RiFlushAction)
    ensures
        shutdown ==> a is FlushAndStop,
        !shutdown && (elapsed_ms >= interval_ms || cache_len >= limit) ==> a is Flush,
        !shutdown && elapsed_ms < interval_ms && cache_len < limit ==> a is Wait,
{
    if shutdown {
        RiFlushAction::FlushAndStop
    } else if elapsed_ms >= interval_ms || cache_len >= limit {
        RiFlushAction::Flush
    } else {
        RiFlushAction::Wait
    }
}

} // verus!
