use vstd::prelude::*;

verus! {

/// Whether cron accepts `rule` as a schedule expression.
pub uninterp spec fn cron_accepts(rule: Seq<char>) -> bool;

/// The last second of the year 9999, in seconds since the epoch: chrono
/// holds every time up to it, and every local date around it, with room to
/// spare.
pub const LATEST_SUPPORTED_TIME: i64 = 253_402_300_799;

/// Relies on cron's `Schedule::from_str` and `Schedule::after`: the first
/// occurrence of the schedule after `now` (seconds since the epoch), with the
/// schedule's fields read in the machine's time zone. A rule that cron does
/// not parse has no occurrence. cron adds a second to `now`, which chrono
/// refuses past its range, so `now` stays well inside it.
#[verifier::external_body]
pub(crate) fn next_occurrence(rule: &str, now: i64) -> (r: Option<i64>)
    requires
        0 <= now <= LATEST_SUPPORTED_TIME,
    ensures
        !cron_accepts(rule@) ==> r.is_none(),
{
    let schedule = <cron::Schedule as std::str::FromStr>::from_str(rule).ok()?;
    let start = chrono::TimeZone::timestamp_opt(&chrono::Local, now, 0).single()?;
    schedule.after(&start).next().map(|t| t.timestamp())
}

/// Relies on chrono's `Utc::now`: the current time in seconds since the epoch.
#[verifier::external_body]
pub(crate) fn clock_now() -> (r: i64) {
    chrono::Utc::now().timestamp()
}

/// Relies on chrono's `Local` time zone: the timestamp of the wall-clock second
/// `second_of_day` on the local calendar day that holds `now`, if that local
/// time exists (the earlier one where it occurs twice). chrono stops on a
/// local date past the last it holds, so `now` stays well inside its range.
#[verifier::external_body]
pub(crate) fn local_time_of_day(now: i64, second_of_day: u32) -> (r: Option<i64>)
    requires
        0 <= now <= LATEST_SUPPORTED_TIME,
{
    let day = chrono::TimeZone::timestamp_opt(&chrono::Local, now, 0).single()?.date_naive();
    let time = chrono::NaiveTime::from_num_seconds_from_midnight_opt(second_of_day, 0)?;
    day.and_time(time).and_local_timezone(chrono::Local).earliest().map(|t| t.timestamp())
}

/// Whether `c` is an ASCII decimal digit.
pub open spec fn is_digit(c: char) -> bool {
    '0' as u32 <= c as u32 <= '9' as u32
}

/// The value of the decimal digit `c`.
pub open spec fn digit_value(c: char) -> int {
    c as u32 - '0' as u32
}

/// Whether `s` reads `HH:MM`: two digits of an hour up to 23, a colon, and
/// two digits of a minute up to 59.
pub open spec fn is_clock_text(s: Seq<char>) -> bool {
    &&& s.len() == 5
    &&& is_digit(s[0]) && is_digit(s[1]) && s[2] == ':' && is_digit(s[3]) && is_digit(s[4])
    &&& digit_value(s[0]) * 10 + digit_value(s[1]) <= 23
    &&& digit_value(s[3]) * 10 + digit_value(s[4]) <= 59
}

/// Relies on chrono's `DateTime::format` with `%H:%M` in the `Local` time zone:
/// the hour 00-23 and the minute 00-59, each zero-padded to two digits, with a
/// colon between. `Utc.timestamp_opt` gives a single time for every timestamp
/// in chrono's range.
#[verifier::external_body]
pub(crate) fn local_clock_text(ts: i64) -> (r: Option<String>)
    ensures
        0 <= ts <= 300_000_000_000 ==> r.is_some(),
        r matches Some(s) ==> is_clock_text(s@),
{
    chrono::TimeZone::timestamp_opt(&chrono::Utc, ts, 0).single().map(
        |t| t.with_timezone(&chrono::Local).format("%H:%M").to_string(),
    )
}

/// Relies on rand's `Rng::gen_range` with the thread-local generator: a value
/// of `0..len`, which must not be empty.
#[verifier::external_body]
pub(crate) fn random_index(len: usize) -> (r: usize)
    requires
        len > 0,
    ensures
        r < len,
{
    rand::Rng::gen_range(&mut rand::thread_rng(), 0..len)
}

} // verus!
