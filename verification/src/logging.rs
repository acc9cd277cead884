//! Which responses are logged, and at which level.

use vstd::prelude::*;
use ahash::AHashSet;
use crate::maps::{text_set, text_set_contains, text_set_insert, text_set_new};
use crate::text::{ascii_lower, chars_of, lowercase, string_of, string_views};

verus! {

/// The levels at which responses are logged.
#[derive(Debug, Clone, Copy, PartialEq, Eq, Structural)]
pub enum LogLevel {
    Error,
    Warning,
    Info,
}

/// The configuration of the response log.
pub struct LogConfig {
    /// 0 = off, 1 = errors, 2 = warnings, 3 = info, 4 = debug.
    level: u8,
    /// The paths whose responses are never logged.
    skip_paths: AHashSet<String>,
    /// Successful responses that took less than this many milliseconds are
    /// not logged.
    min_duration_ms: Option<u32>,
}

/// The number of a level name, whatever its case; an unknown name switches
/// the log off.
pub open spec fn level_number(name: Seq<char>) -> u8 {
    let lower = ascii_lower(name);
    if lower == "debug"@ {
        4
    } else if lower == "info"@ {
        3
    } else if lower == "warning"@ || lower == "warn"@ {
        2
    } else if lower == "error"@ {
        1
    } else {
        0
    }
}

/// The level at which a response with a status is logged: server errors as
/// errors, client errors as warnings, anything else as info.
pub open spec fn level_of_status(status: u16) -> LogLevel {
    if 500 <= status <= 599 {
        LogLevel::Error
    } else if 400 <= status <= 499 {
        LogLevel::Warning
    } else {
        LogLevel::Info
    }
}

/// The number that a configuration must reach for a level to be logged.
pub open spec fn required_level(level: LogLevel) -> u8 {
    match level {
        LogLevel::Error => 1,
        LogLevel::Warning => 2,
        LogLevel::Info => 3,
    }
}

/// The model of a `LogConfig`.
pub struct LogModel {
    pub level: u8,
    pub skip_paths: Set<Seq<char>>,
    pub min_duration_ms: Option<u32>,
}

/// Whether and at which level a response is logged.
///
/// Nothing is logged for a skipped path or at a level that the
/// configuration does not reach. A response with a status below 400 is also
/// not logged if the sample left it out or if it was faster than the
/// configured least duration; errors are never left out.
pub open spec fn log_decision(
    cfg: LogModel,
    path: Seq<char>,
    status: u16,
    duration_ms: u64,
    sampled_out: bool,
) -> Option<LogLevel> {
    let level = level_of_status(status);
    if cfg.skip_paths.contains(path) || cfg.level < required_level(level) {
        None
    } else if status < 400 && (sampled_out || (cfg.min_duration_ms matches Some(least)
        && duration_ms < least)) {
        None
    } else {
        Some(level)
    }
}

impl View for LogConfig {
    type V = LogModel;

    closed spec fn view(&self) -> LogModel {
        LogModel {
            level: self.level,
            skip_paths: text_set(self.skip_paths),
            min_duration_ms: self.min_duration_ms,
        }
    }
}

impl LogConfig {
    /// A configuration from the name of the level, the paths to skip, and the
    /// least duration of the successful responses that are logged.
    pub fn new(log_level: &str, skip_paths: Vec<String>, min_duration_ms: Option<u32>) -> (c: Self)
        ensures
            c@.level == level_number(log_level@),
            c@.skip_paths == string_views(skip_paths@).to_set(),
            c@.min_duration_ms == min_duration_ms,
    {
        let chars = chars_of(log_level);
        let lower = lowercase(chars.as_slice());
        let l = string_of(lower.as_slice());
        let level: u8 = if l.as_str().eq("debug") {
            4
        } else if l.as_str().eq("info") {
            3
        } else if l.as_str().eq("warning") || l.as_str().eq("warn") {
            2
        } else if l.as_str().eq("error") {
            1
        } else {
            0
        };
        let mut set = text_set_new();
        let ghost all = string_views(skip_paths@);
        let mut i: usize = 0;
        assert(all.take(0).to_set() =~= Set::<Seq<char>>::empty());
        while i < skip_paths.len()
            invariant
                i <= skip_paths.len(),
                all == string_views(skip_paths@),
                text_set(set) == all.take(i as int).to_set(),
            decreases skip_paths.len() - i,
        {
            proof {
                let before = all.take(i as int);
                let upto = all.take(i + 1);
                assert(upto =~= before.push(skip_paths@[i as int]@));
                assert forall|t: Seq<char>| upto.to_set().contains(t) <==> before.to_set().insert(
                    skip_paths@[i as int]@,
                ).contains(t) by {
                    if upto.contains(t) {
                        let k = choose|k: int| 0 <= k < upto.len() && upto[k] == t;
                        if k < i {
                            assert(before[k] == t);
                        }
                    }
                    if before.contains(t) {
                        let k = choose|k: int| 0 <= k < before.len() && before[k] == t;
                        assert(upto[k] == t);
                    }
                    if t == skip_paths@[i as int]@ {
                        assert(upto[i as int] == t);
                    }
                }
                assert(upto.to_set() =~= before.to_set().insert(skip_paths@[i as int]@));
            }
            text_set_insert(&mut set, skip_paths[i].clone());
            i += 1;
        }
        assert(all.take(skip_paths.len() as int) =~= all);
        LogConfig { level, skip_paths: set, min_duration_ms }
    }

    /// Whether the configuration reaches a level.
    pub fn is_enabled(&self, required: u8) -> (r: bool)
        ensures
            r == (self@.level >= required),
    {
        self.level >= required
    }

    /// Whether responses for a path are logged at all.
    pub fn should_log_path(&self, path: &str) -> (r: bool)
        ensures
            r == !self@.skip_paths.contains(path@),
    {
        !text_set_contains(&self.skip_paths, path)
    }
}

/// Decides whether and at which level a response is logged. `sampled_out`
/// says whether the random sample of successful responses left this one out.
pub fn log_response(
    path: &str,
    status: u16,
    duration_ms: u64,
    sampled_out: bool,
    config: &LogConfig,
) -> (r: Option<LogLevel>)
    ensures
        r == log_decision(config@, path@, status, duration_ms, sampled_out),
{
    if !config.should_log_path(path) {
        return None;
    }
    let (required, level): (u8, LogLevel) = if 500 <= status && status <= 599 {
        (1, LogLevel::Error)
    } else if 400 <= status && status <= 499 {
        (2, LogLevel::Warning)
    } else {
        (3, LogLevel::Info)
    };
    if !config.is_enabled(required) {
        return None;
    }
    if status < 400 {
        if sampled_out {
            return None;
        }
        match config.min_duration_ms {
            Some(least) => {
                if duration_ms < least as u64 {
                    return None;
                }
            },
            None => {},
        }
    }
    Some(level)
}

} // verus!
