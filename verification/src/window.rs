//! The start of the time window: a lookback span taken off a reference
//! instant, as the backend wants it, in milliseconds since the epoch.

use vstd::prelude::*;
use crate::span::{Instant, Span};

verus! {

/// Nanoseconds in one millisecond.
pub const NANOS_PER_MILLI: u32 = 1_000_000;

/// The first second of the calendar that instants are reckoned in,
/// 00:00:00 UTC on 1 January of the year -262143, in seconds since the epoch.
pub const CALENDAR_FIRST_SEC: i64 = -8_334_601_228_800;

/// The last second of that calendar, 23:59:59 UTC on 31 December of the
/// year 262142.
pub const CALENDAR_LAST_SEC: i64 = 8_210_266_876_799;

/// Whether the calendar reaches the instant `at`, given in nanoseconds since
/// the epoch.
pub open spec fn in_calendar(at: int) -> bool {
    CALENDAR_FIRST_SEC * 1_000_000_000 <= at < (CALENDAR_LAST_SEC + 1) * 1_000_000_000
}

/// The start of the window that looks back by `lookback` nanoseconds from the
/// instant `from`: the milliseconds that have fully passed since the epoch at
/// `from - lookback`. There is none where the calendar does not reach `from`
/// or the start.
pub open spec fn window_start(from: int, lookback: nat) -> Option<i64> {
    if in_calendar(from) && in_calendar(from - lookback) {
        Some(((from - lookback) / (NANOS_PER_MILLI as int)) as i64)
    } else {
        None
    }
}

/// Calls chrono: `DateTime::<Utc>::from_timestamp` makes the instant,
/// `TimeDelta::from_std` the lookback, `DateTime::checked_sub_signed` takes
/// one off the other and `DateTime::timestamp_millis` reads the result.
/// Believed of them: the subtraction is exact, it fails only where the
/// instant or the result leaves chrono's calendar, and the reading rounds
/// towards the past.
#[verifier::external_body]
fn shifted_millis(secs: i64, nanos: u32, back_secs: u64, back_nanos: u32) -> (start: Option<i64>)
    requires
        nanos < 1_000_000_000,
        back_nanos < 1_000_000_000,
    ensures
        start == window_start(
            secs * 1_000_000_000 + nanos,
            (back_secs * 1_000_000_000 + back_nanos) as nat,
        ),
{
    let at = chrono::DateTime::<chrono::Utc>::from_timestamp(secs, nanos)?;
    let span = std::time::Duration::new(back_secs, back_nanos);
    let back = chrono::TimeDelta::from_std(span).ok()?;
    Some(at.checked_sub_signed(back)?.timestamp_millis())
}

/// The absolute start of the window that ends at `from` and is `delta` long,
/// in milliseconds since the epoch, UTC: the millisecond in which the instant
/// `from - delta` falls. There is none where the calendar does not reach
/// `from` or that instant.
pub fn calculate_start_time(from: &Instant, delta: &Span) -> (start: Option<i64>)
    ensures
        start == window_start(from@, delta@),
        start is Some <==> in_calendar(from@) && in_calendar(from@ - delta@),
        start is Some ==> start->0 * NANOS_PER_MILLI <= from@ - delta@ < (start->0 + 1)
            * NANOS_PER_MILLI,
{
    shifted_millis(from.secs(), from.subsec_nanos(), delta.secs(), delta.subsec_nanos())
}

/// A longer lookback never gives a later start: where the window that looks
/// back by `longer` from `from` has a start, so has the one that looks back by
/// `shorter`, and it starts no earlier.
pub proof fn lemma_longer_lookback_starts_no_later(from: int, shorter: nat, longer: nat)
    requires
        shorter <= longer,
        window_start(from, longer) is Some,
    ensures
        window_start(from, shorter) is Some,
        window_start(from, longer)->0 <= window_start(from, shorter)->0,
{
}

/// The start is the millisecond in which `from - lookback` falls.
pub proof fn lemma_window_start_is_floor(from: int, lookback: nat)
    requires
        window_start(from, lookback) is Some,
    ensures
        window_start(from, lookback)->0 * NANOS_PER_MILLI <= from - lookback,
        from - lookback < (window_start(from, lookback)->0 + 1) * NANOS_PER_MILLI,
{
}

/// The start of a window is its end less its length, in milliseconds since
/// the epoch: for every instant `from` and every span `delta` that does not
/// lead out of the calendar, the start is the millisecond in which
/// `from - delta` falls, and where `delta` is a whole number of milliseconds
/// it is the millisecond of `from` less those of `delta`.
pub proof fn lemma_start_is_end_less_lookback(from: Instant, delta: Span)
    requires
        in_calendar(from@),
        in_calendar(from@ - delta@),
    ensures
        window_start(from@, delta@) is Some,
        window_start(from@, delta@)->0 * NANOS_PER_MILLI <= from@ - delta@ < (window_start(
            from@,
            delta@,
        )->0 + 1) * NANOS_PER_MILLI,
        window_start(from@, 0) is Some,
        delta@ % (NANOS_PER_MILLI as nat) == 0 ==> window_start(from@, delta@)->0 == window_start(
            from@,
            0,
        )->0 - delta@ / (NANOS_PER_MILLI as nat),
{
    lemma_window_start_is_floor(from@, delta@);
    lemma_window_start_is_floor(from@, 0);
}

/// The start never grows with the lookback: of two windows that end at
/// `from` and both have a start, the longer one starts no later.
pub proof fn lemma_start_never_grows_with_lookback(from: Instant, shorter: Span, longer: Span)
    requires
        shorter@ <= longer@,
        window_start(from@, shorter@) is Some,
        window_start(from@, longer@) is Some,
    ensures
        window_start(from@, longer@)->0 <= window_start(from@, shorter@)->0,
{
    lemma_longer_lookback_starts_no_later(from@, shorter@, longer@);
}

} // verus!
