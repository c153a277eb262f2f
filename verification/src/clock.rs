use vstd::prelude::*;

use crate::calendar::{local_day_at, CalendarDate, LOCAL_DAY_FIRST_SECOND, LOCAL_DAY_LAST_SECOND};

verus! {

/// The wall clock of the machine, as std reports it.
#[verifier::external_type_specification]
#[verifier::external_body]
pub struct ExSystemTime(std::time::SystemTime);

/// Calls `std::time::SystemTime::now`. The result is the current wall-clock
/// time; nothing can be promised of its value.
#[verifier::external_body]
fn system_time_now() -> std::time::SystemTime {
    std::time::SystemTime::now()
}

/// Calls `std::time::SystemTime::duration_since` with `UNIX_EPOCH` on `t`:
/// `Ok` with the time from the epoch to `t`, or, when `t` lies before the
/// epoch, `Err` with the time from `t` to the epoch that std's error carries
/// (`SystemTimeError::duration`). Nothing is stated of the durations, which
/// depend on the instant `t` and are opaque to the proofs.
#[verifier::external_body]
fn offset_from_unix_epoch(t: &std::time::SystemTime) -> Result<
    std::time::Duration,
    std::time::Duration,
> {
    match t.duration_since(std::time::UNIX_EPOCH) {
        Ok(after) => Ok(after),
        Err(e) => Err(e.duration()),
    }
}

/// Calls `std::time::Duration::as_millis`: the whole milliseconds of `d`.
/// Nothing is stated, as a duration is opaque to the proofs.
#[verifier::external_body]
fn whole_millis(d: &std::time::Duration) -> u128 {
    d.as_millis()
}

/// Calls `std::time::Duration::as_secs`: the whole seconds of `d`. Nothing is
/// stated, as a duration is opaque to the proofs.
#[verifier::external_body]
fn whole_seconds(d: &std::time::Duration) -> u64 {
    d.as_secs()
}

/// Calls `std::time::Duration::subsec_nanos`: the nanoseconds of `d` beyond
/// its whole seconds, which std documents to be below one billion.
#[verifier::external_body]
fn subsec_nanos(d: &std::time::Duration) -> (r: u32)
    ensures
        r < 1_000_000_000,
{
    d.subsec_nanos()
}

/// What `now_ms` reports for a reading of the clock: the milliseconds since
/// the epoch truncated to 64 bits, or 0 when the clock reads before the epoch.
pub open spec fn epoch_millis_value(elapsed: Option<u128>) -> u64 {
    match elapsed {
        Some(ms) => ms as u64,
        None => 0,
    }
}

/// Turns the elapsed time since the epoch into the 64-bit millisecond stamp
/// that the tray logic compares.
pub fn epoch_millis_to_u64(elapsed: Option<u128>) -> (r: u64)
    ensures
        r == epoch_millis_value(elapsed),
{
    match elapsed {
        Some(ms) => ms as u64,
        None => 0,
    }
}

/// Milliseconds since the Unix epoch by the wall clock, 0 if the clock is set
/// before the epoch.
pub fn now_ms() -> (r: u64)
    ensures
        exists|elapsed: Option<u128>| r == epoch_millis_value(elapsed),
{
    let now = system_time_now();
    let elapsed = match offset_from_unix_epoch(&now) {
        Ok(d) => Some(whole_millis(&d)),
        Err(_) => None,
    };
    epoch_millis_to_u64(elapsed)
}

/// The instant given as seconds and nanoseconds after the epoch (`after`) or
/// before it (`before`), as whole seconds since the epoch rounded down and the
/// nanoseconds past them.
pub open spec fn timestamp_value(after: Option<(u64, u32)>, before: Option<(u64, u32)>) -> Option<
    (int, int),
> {
    match after {
        Some((s, n)) => Some((s as int, n as int)),
        None => match before {
            Some((s, n)) => if n == 0 {
                Some((-s, 0))
            } else {
                Some((-s - 1, 1_000_000_000 - n))
            },
            None => None,
        },
    }
}

/// The instant given as a distance after the epoch (`after`) or before it
/// (`before`), each as whole seconds and nanoseconds, as seconds since the
/// epoch rounded down and the nanoseconds past them; `None` when neither is
/// given or the seconds do not fit in 64 bits.
pub fn signed_timestamp(after: Option<(u64, u32)>, before: Option<(u64, u32)>) -> (r: Option<
    (i64, u32),
>)
    requires
        after matches Some((s, n)) ==> n < 1_000_000_000,
        before matches Some((s, n)) ==> n < 1_000_000_000,
    ensures
        match timestamp_value(after, before) {
            Some((s, n)) => if i64::MIN <= s <= i64::MAX {
                r == Some((s as i64, n as u32))
            } else {
                r is None
            },
            None => r is None,
        },
{
    match after {
        Some((s, n)) => if s <= i64::MAX as u64 {
            Some((s as i64, n))
        } else {
            None
        },
        None => match before {
            Some((s, n)) => if n == 0 {
                if s <= i64::MAX as u64 {
                    Some((-(s as i64), 0))
                } else if s == i64::MAX as u64 + 1 {
                    Some((i64::MIN, 0))
                } else {
                    None
                }
            } else if s < i64::MAX as u64 {
                Some((-(s as i64) - 1, 1_000_000_000 - n))
            } else if s == i64::MAX as u64 {
                Some((i64::MIN, 1_000_000_000 - n))
            } else {
                None
            },
            None => None,
        },
    }
}

/// Whether the local day of the second `seconds` since the epoch is looked up:
/// it and the days on either side of it are days the date library represents.
pub open spec fn local_day_known(seconds: int) -> bool {
    LOCAL_DAY_FIRST_SECOND <= seconds <= LOCAL_DAY_LAST_SECOND
}

/// `day` is what the local-day lookup gives for the instant `timestamp`: a
/// valid day exactly when there is an instant and its day is looked up, and
/// then within a day of the instant's UTC day.
pub open spec fn is_local_day_result(day: Option<CalendarDate>, timestamp: Option<(i64, u32)>) -> bool {
    &&& timestamp matches Some((s, n)) ==> n < 1_000_000_000
    &&& (day is Some <==> (timestamp matches Some((s, n)) && local_day_known(s as int)))
    &&& day matches Some(d) ==> d.is_valid()
    &&& day matches Some(d) ==> (timestamp matches Some((s, n)) && s as int / 86400 - 1
        <= d.day_number() <= s as int / 86400 + 1)
}

/// The local calendar day of the instant `timestamp` (seconds since the epoch
/// and nanoseconds past them), or `None` when there is no instant or its day,
/// or a day beside it, lies outside the supported dates.
pub fn local_day_for(timestamp: Option<(i64, u32)>) -> (r: Option<CalendarDate>)
    requires
        timestamp matches Some((s, n)) ==> n < 1_000_000_000,
    ensures
        r is Some <==> (timestamp matches Some((s, n)) && local_day_known(s as int)),
        r matches Some(d) ==> d.is_valid(),
        r matches Some(d) ==> (timestamp matches Some((s, n)) && s as int / 86400 - 1
            <= d.day_number() <= s as int / 86400 + 1),
{
    match timestamp {
        Some((seconds, nanos)) => if LOCAL_DAY_FIRST_SECOND <= seconds && seconds
            <= LOCAL_DAY_LAST_SECOND {
            Some(local_day_at(seconds, nanos))
        } else {
            None
        },
        None => None,
    }
}

/// The local calendar day by the wall clock and the machine's time zone;
/// `None` when the clock reads outside the seconds whose day is looked up.
pub fn local_today() -> (r: Option<CalendarDate>)
    ensures
        exists|timestamp: Option<(i64, u32)>| #[trigger] is_local_day_result(r, timestamp),
{
    let now = system_time_now();
    let (after, before) = match offset_from_unix_epoch(&now) {
        Ok(d) => (Some((whole_seconds(&d), subsec_nanos(&d))), None),
        Err(d) => (None, Some((whole_seconds(&d), subsec_nanos(&d)))),
    };
    let timestamp = signed_timestamp(after, before);
    let day = local_day_for(timestamp);
    assert(is_local_day_result(day, timestamp));
    day
}

} // verus!

verus! {

/// The whole seconds of an instant, 0 for none.
pub open spec fn seconds_of(timestamp: Option<(i64, u32)>) -> int {
    match timestamp {
        Some((s, _)) => s as int,
        None => 0,
    }
}

/// The local day of an instant lies within a day of its UTC day, so instants
/// more than two days apart never share a local day.
pub proof fn lemma_local_days_follow_the_clock(
    d1: Option<CalendarDate>,
    t1: Option<(i64, u32)>,
    d2: Option<CalendarDate>,
    t2: Option<(i64, u32)>,
)
    requires
        is_local_day_result(d1, t1),
        is_local_day_result(d2, t2),
        d1 is Some,
        d2 is Some,
    ensures
        ({
            let s1 = seconds_of(t1);
            let s2 = seconds_of(t2);
            s2 >= s1 + 3 * 86400 ==> d2->0.day_number() > d1->0.day_number()
        }),
{
    let s1 = seconds_of(t1);
    let s2 = seconds_of(t2);
    if s2 >= s1 + 3 * 86400 {
        assert(s2 / 86400 >= s1 / 86400 + 3) by (nonlinear_arith)
            requires
                s2 >= s1 + 3 * 86400,
        ;
    }
}

} // verus!
