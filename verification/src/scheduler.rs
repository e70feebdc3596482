//! The periodic refresh loop's decisions: how long to sleep between
//! cycles, and what to do with each cycle's outcome.  The loop itself —
//! the timer, the task handle and its replacement — lives with the
//! caller; these functions decide, the caller performs.
use crate::snapshot::SiteData;
use crate::text::str_eq;
use vstd::prelude::*;

verus! {

/// The sleep in milliseconds a refresh-interval token asks for; anything
/// unrecognized means the fifteen-minute default.
pub open spec fn interval_ms(s: Seq<char>) -> int {
    if s == "5m"@ {
        300000
    } else if s == "15m"@ {
        900000
    } else if s == "60m"@ {
        3600000
    } else {
        900000
    }
}

/// Resolves a refresh-interval token to the cycle sleep in milliseconds.
pub fn parse_interval_ms(interval: &str) -> (r: u64)
    ensures
        r as int == interval_ms(interval@),
{
    if str_eq(interval, "5m") {
        300000
    } else if str_eq(interval, "15m") {
        900000
    } else if str_eq(interval, "60m") {
        3600000
    } else {
        900000
    }
}

/// What one cycle of the refresh loop does next.  There is no stopping
/// variant: a failed cycle is logged and the loop goes on; only an
/// outside cancellation ends it.
pub enum CycleAction {
    Publish(Vec<SiteData>),
    LogAndContinue(String),
}

/// A successful run publishes its snapshot to the subscribers; a failed
/// one surfaces nothing and leaves only a log line.
pub fn next_cycle_action(result: Result<Vec<SiteData>, String>) -> (r: CycleAction)
    ensures
        (match result {
            Ok(snapshot) => r == CycleAction::Publish(snapshot),
            Err(message) => r == CycleAction::LogAndContinue(message),
        }),
{
    match result {
        Ok(snapshot) => CycleAction::Publish(snapshot),
        Err(message) => CycleAction::LogAndContinue(message),
    }
}

} // verus!
