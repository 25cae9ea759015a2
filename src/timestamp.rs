use vstd::prelude::*;

use chrono::{Datelike, Timelike};

verus! {

/// A UTC instant: a calendar day, counted from the first of January of year 1
/// as day 1, and the time within it.
#[derive(Debug, Clone, Copy, PartialEq, Eq, Structural)]
pub struct Timestamp {
    pub days_from_ce: i32,
    pub seconds_from_midnight: u32,
    /// Nanoseconds within the second; 1_000_000_000 and more mark a leap second.
    pub nanosecond: u32,
}

impl Timestamp {
    /// The time of day is in range.
    pub open spec fn wf(&self) -> bool {
        self.seconds_from_midnight < 86400 && self.nanosecond < 2_000_000_000
    }

    /// Whether two instants fall on the same UTC calendar day.
    pub fn same_day(&self, other: &Timestamp) -> (r: bool)
        ensures
            r == (self.days_from_ce == other.days_from_ce),
    {
        self.days_from_ce == other.days_from_ce
    }
}

/// Relies on `std::time::SystemTime::now` and `Duration` since the Unix
/// epoch, and on `chrono::DateTime::<Utc>::from_timestamp`, read through
/// `Datelike::num_days_from_ce`, `Timelike::num_seconds_from_midnight` and
/// `Timelike::nanosecond`, which keep the time of day in range. A clock
/// before the epoch or beyond chrono's range gives no instant.
#[verifier::external_body]
pub(crate) fn now() -> (r: Option<Timestamp>)
    ensures
        r matches Some(t) ==> t.wf(),
{
    let elapsed = std::time::SystemTime::now().duration_since(std::time::UNIX_EPOCH).ok()?;
    let secs = i64::try_from(elapsed.as_secs()).ok()?;
    let t = chrono::DateTime::<chrono::Utc>::from_timestamp(secs, elapsed.subsec_nanos())?;
    Some(Timestamp {
        days_from_ce: t.date_naive().num_days_from_ce(),
        seconds_from_midnight: t.num_seconds_from_midnight(),
        nanosecond: t.nanosecond(),
    })
}

/// Whether an update check should go to the network: only when forced or
/// when output goes to a terminal, and, unless forced, not again on the day
/// of the last successful check.
pub open spec fn update_check_due_spec(
    last: Option<Timestamp>,
    now: Timestamp,
    force: bool,
    is_terminal: bool,
) -> bool {
    force || (is_terminal && match last {
        Some(l) => l.days_from_ce != now.days_from_ce,
        None => true,
    })
}

/// Decides whether an update check goes to the network.
pub fn update_check_due(last: Option<Timestamp>, now: Timestamp, force: bool, is_terminal: bool) -> (r: bool)
    ensures
        r == update_check_due_spec(last, now, force, is_terminal),
{
    if !is_terminal && !force {
        return false;
    }
    if let Some(l) = last {
        if now.same_day(&l) && !force {
            return false;
        }
    }
    true
}

/// A check already made today is not repeated unless forced; a forced one
/// always goes out.
pub proof fn law_update_check_throttle(last: Timestamp, now: Timestamp, is_terminal: bool)
    ensures
        last.days_from_ce == now.days_from_ce ==> !update_check_due_spec(
            Some(last),
            now,
            false,
            is_terminal,
        ),
        update_check_due_spec(Some(last), now, true, is_terminal),
{
}

} // verus!
