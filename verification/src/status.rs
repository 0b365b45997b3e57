//! The status line: the latest recent log message, errors first.

use vstd::prelude::*;
use crate::text::{has_prefix, strip_prefix};

verus! {

/// How long a message stays in the status line, in nanoseconds (9 s).
pub const STATUS_WINDOW_NS: i128 = 9_000_000_000;

/// Severity of a log message.
#[derive(Clone, Copy, PartialEq, Eq, Structural, Debug)]
pub enum LogLevel {
    Error,
    Warn,
    Info,
    Debug,
    Trace,
}

/// A log message.
pub struct LogEntry {
    pub level: LogLevel,
    /// When it was logged, in nanoseconds since the Unix epoch.
    pub time_ns: i64,
    pub message: String,
}

/// How the status line shows a message.
#[derive(Clone, Copy, PartialEq, Eq, Structural, Debug)]
pub enum StatusKind {
    Error,
    Warning,
    Plain,
}

/// Message `i` is recent: logged at most nine seconds before `now`.
pub open spec fn recent(logs: Seq<LogEntry>, now: i64, i: int) -> bool {
    0 <= i < logs.len() && logs[i].time_ns as int >= now as int - STATUS_WINDOW_NS
}

/// Message `i` is recent and passes the level filter (`None` accepts any level).
pub open spec fn candidate(logs: Seq<LogEntry>, now: i64, level: Option<LogLevel>, i: int) -> bool {
    recent(logs, now, i) && match level {
        Some(l) => logs[i].level == l,
        None => true,
    }
}

/// `i` is the latest candidate message.
pub open spec fn latest_candidate(logs: Seq<LogEntry>, now: i64, level: Option<LogLevel>, i: int) -> bool {
    candidate(logs, now, level, i) && forall|j: int| i < j < logs.len() ==> !candidate(logs, now, level, j)
}

/// No message is a candidate.
pub open spec fn no_candidate(logs: Seq<LogEntry>, now: i64, level: Option<LogLevel>) -> bool {
    forall|j: int| 0 <= j < logs.len() ==> !candidate(logs, now, level, j)
}

/// `r` is the message the status line shows at time `now`: see [`status_message`].
pub open spec fn status_shown(logs: Seq<LogEntry>, now: i64, r: Option<(usize, StatusKind)>) -> bool {
    match r {
        Some((i, StatusKind::Error)) => latest_candidate(logs, now, Some(LogLevel::Error), i as int),
        Some((i, StatusKind::Warning)) => no_candidate(logs, now, Some(LogLevel::Error))
            && latest_candidate(logs, now, Some(LogLevel::Warn), i as int),
        Some((i, StatusKind::Plain)) => no_candidate(logs, now, Some(LogLevel::Error))
            && no_candidate(logs, now, Some(LogLevel::Warn)) && latest_candidate(logs, now, None, i as int),
        None => no_candidate(logs, now, None),
    }
}

/// The latest candidate message.
fn latest(logs: &Vec<LogEntry>, now: i64, level: Option<LogLevel>) -> (r: Option<usize>)
    ensures
        match r {
            Some(i) => latest_candidate(logs@, now, level, i as int),
            None => no_candidate(logs@, now, level),
        },
{
    let window: i128 = now as i128 - STATUS_WINDOW_NS;
    let mut k: usize = logs.len();
    while k > 0
        invariant
            k <= logs@.len(),
            window == now as int - STATUS_WINDOW_NS,
            forall|j: int| k <= j < logs@.len() ==> !candidate(logs@, now, level, j),
        decreases k,
    {
        let i = k - 1;
        let m = &logs[i];
        let level_ok = match level {
            Some(l) => m.level == l,
            None => true,
        };
        if m.time_ns as i128 >= window && level_ok {
            return Some(i);
        }
        k = i;
    }
    None
}

/// The message the status line shows at time `now`: the latest error of the last
/// nine seconds, else the latest warning of them, else their latest message.
pub fn status_message(logs: &Vec<LogEntry>, now: i64) -> (r: Option<(usize, StatusKind)>)
    ensures
        status_shown(logs@, now, r),
{
    if logs.len() == 0 {
        return None;
    }
    match latest(logs, now, Some(LogLevel::Error)) {
        Some(i) => {
            return Some((i, StatusKind::Error));
        },
        None => {},
    }
    match latest(logs, now, Some(LogLevel::Warn)) {
        Some(i) => {
            return Some((i, StatusKind::Warning));
        },
        None => {},
    }
    match latest(logs, now, None) {
        Some(i) => Some((i, StatusKind::Plain)),
        None => None,
    }
}

/// The text of an ordinary message in the status line: without a leading
/// `"[ event ] "` or, failing that, `"[command] "`.
pub fn status_text(message: &str) -> (t: &str)
    ensures
        has_prefix(message@, "[ event ] "@) ==> t@ == message@.skip("[ event ] "@.len() as int),
        !has_prefix(message@, "[ event ] "@) && has_prefix(message@, "[command] "@) ==> t@ == message@.skip(
            "[command] "@.len() as int,
        ),
        !has_prefix(message@, "[ event ] "@) && !has_prefix(message@, "[command] "@) ==> t@ == message@,
{
    match strip_prefix(message, "[ event ] ") {
        Some(t) => t,
        None => match strip_prefix(message, "[command] ") {
            Some(t) => t,
            None => message,
        },
    }
}

} // verus!
