//! How long logs are kept and which log files are due for removal.

use vstd::prelude::*;
use crate::image::trim_range;
use crate::supervisor::trimmed;
use crate::text::{chars_of, has_prefix, parse_decimal, parse_decimal_from, starts_with};

verus! {

/// For how many days logs are kept where nothing else is configured.
pub const DEFAULT_RETENTION_DAYS: u64 = 7;

/// The shortest time, in days, for which logs are kept.
pub const MIN_RETENTION_DAYS: u64 = 1;

/// The longest time, in days, for which logs are kept.
pub const MAX_RETENTION_DAYS: u64 = 365;

/// Seconds in a day.
pub const SECONDS_PER_DAY: u64 = 86_400;

/// For how many days logs are kept: the configured number, which counts as
/// at least one day and at most a year; a week where nothing is configured or
/// what is configured is no number.
pub open spec fn retention_days(configured: Option<Seq<char>>) -> u64 {
    match configured {
        None => DEFAULT_RETENTION_DAYS,
        Some(raw) => match parse_decimal(trimmed(raw)) {
            None => DEFAULT_RETENTION_DAYS,
            Some(days) => if days < MIN_RETENTION_DAYS {
                MIN_RETENTION_DAYS
            } else if days > MAX_RETENTION_DAYS {
                MAX_RETENTION_DAYS
            } else {
                days
            },
        },
    }
}

/// The view of an optional borrowed text.
pub open spec fn optional_str(text: Option<&str>) -> Option<Seq<char>> {
    match text {
        Some(t) => Some(t@),
        None => None,
    }
}

/// For how many days logs are kept, given what is configured.
pub fn log_retention_days(configured: Option<&str>) -> (days: u64)
    ensures
        days == retention_days(optional_str(configured)),
{
    let raw = match configured {
        None => {
            return DEFAULT_RETENTION_DAYS;
        },
        Some(raw) => raw,
    };
    let chars = chars_of(raw);
    proof {
        assert(chars@.subrange(0, chars.len() as int) =~= chars@);
    }
    let (from, to) = trim_range(&chars, 0, chars.len());
    let mut body: Vec<char> = Vec::new();
    let mut i: usize = from;
    while i < to
        invariant
            from <= i <= to <= chars.len(),
            body@ == chars@.subrange(from as int, i as int),
        decreases to - i,
    {
        body.push(chars[i]);
        proof {
            assert(chars@.subrange(from as int, i + 1) =~= chars@.subrange(
                from as int,
                i as int,
            ).push(chars@[i as int]));
        }
        i = i + 1;
    }
    proof {
        assert(body@.skip(0) =~= body@);
    }
    match parse_decimal_from(&body, 0) {
        None => DEFAULT_RETENTION_DAYS,
        Some(days) => {
            if days < MIN_RETENTION_DAYS {
                MIN_RETENTION_DAYS
            } else if days > MAX_RETENTION_DAYS {
                MAX_RETENTION_DAYS
            } else {
                days
            }
        },
    }
}

/// The time before which a log file is too old, in seconds since the epoch:
/// now less the days for which logs are kept, and the epoch itself where that
/// would lie before it.
pub open spec fn cutoff(now_secs: u64, days: u64) -> u64 {
    if days * SECONDS_PER_DAY >= now_secs {
        0
    } else {
        (now_secs - days * SECONDS_PER_DAY) as u64
    }
}

/// The time before which a log file is too old.
pub fn log_cutoff(now_secs: u64, days: u64) -> (secs: u64)
    ensures
        secs == cutoff(now_secs, days),
{
    if days > u64::MAX / SECONDS_PER_DAY {
        proof {
            assert(days * SECONDS_PER_DAY >= now_secs) by (nonlinear_arith)
                requires
                    days > u64::MAX / SECONDS_PER_DAY,
                    SECONDS_PER_DAY == 86_400,
                    now_secs <= u64::MAX,
            ;
        }
        return 0;
    }
    proof {
        assert(days * SECONDS_PER_DAY <= u64::MAX) by (nonlinear_arith)
            requires
                days <= u64::MAX / SECONDS_PER_DAY,
                SECONDS_PER_DAY == 86_400,
        ;
    }
    let span = days * SECONDS_PER_DAY;
    if span >= now_secs {
        0
    } else {
        now_secs - span
    }
}

/// What begins the name of every rotated log of errors.
pub open spec fn rotated_log_prefix() -> Seq<char> {
    "cargobay-error.log."@
}

/// Whether an entry of the log directory is due for removal: a file whose
/// name marks it as a rotated log of errors and that was last written before
/// the cutoff. An entry whose time of writing is not known stays.
pub open spec fn is_stale(name: Seq<char>, is_file: bool, modified_secs: Option<u64>, cutoff_secs: u64) -> bool {
    &&& is_file
    &&& has_prefix(name, rotated_log_prefix())
    &&& modified_secs is Some
    &&& modified_secs->0 < cutoff_secs
}

/// Whether an entry of the log directory is due for removal.
pub fn is_stale_log(name: &str, is_file: bool, modified_secs: Option<u64>, cutoff_secs: u64) -> (stale:
    bool)
    ensures
        stale == is_stale(name@, is_file, modified_secs, cutoff_secs),
{
    if !is_file {
        return false;
    }
    let chars = chars_of(name);
    let prefix = chars_of("cargobay-error.log.");
    if !starts_with(&chars, &prefix) {
        return false;
    }
    match modified_secs {
        None => false,
        Some(at) => at < cutoff_secs,
    }
}

/// Whether the one-time set-up of a process has been done.
#[derive(Debug, Clone, Copy, PartialEq, Eq, Structural)]
pub struct RunOnce {
    done: bool,
}

impl RunOnce {
    /// Whether the set-up has been done.
    pub closed spec fn is_done(&self) -> bool {
        self.done
    }

    /// A guard for a set-up that has not been done.
    pub fn new() -> (guard: RunOnce)
        ensures
            !guard.is_done(),
    {
        RunOnce { done: false }
    }

    /// Says whether the set-up is to be done now: yes at the first call, no at
    /// every later one.
    pub fn enter(&mut self) -> (first: bool)
        ensures
            first == !old(self).is_done(),
            final(self).is_done(),
    {
        let first = !self.done;
        self.done = true;
        first
    }
}

} // verus!
