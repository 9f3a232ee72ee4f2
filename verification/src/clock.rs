//! Times of day and points in time.

use vstd::prelude::*;

use crate::number::digit;

verus! {

/// The earliest point in time that can be shown, in seconds since 1970: the first of January of
/// the year -262143.
pub const FIRST_TIMESTAMP: i64 = -8334601228800;

/// The latest point in time that can be shown: the last second of the year 262142.
pub const LAST_TIMESTAMP: i64 = 8210266876799;

/// A number below one hundred as two digits.
pub open spec fn two_digits(n: int) -> Seq<char> {
    seq![digit((n / 10) as nat), digit((n % 10) as nat)]
}

/// The hour and the minute of a point in time, in universal time.
pub open spec fn hour_minute(secs: int) -> Seq<char> {
    let of_day = secs % 86400;
    two_digits(of_day / 3600) + seq![':'] + two_digits(of_day % 3600 / 60)
}

/// `chrono::DateTime::from_timestamp` and its format `%H:%M`: nothing for a point in time out of
/// range, else its hour and its minute in universal time, two digits each.
#[verifier::external_body]
pub(crate) fn clock_text(secs: i64) -> (r: Option<String>)
    ensures
        r is Some <==> FIRST_TIMESTAMP <= secs <= LAST_TIMESTAMP,
        r matches Some(text) ==> text@ == hour_minute(secs as int),
{
    chrono::DateTime::from_timestamp(secs, 0).map(|time| time.format("%H:%M").to_string())
}

/// Whether seconds and nanoseconds make a point in time that is in range and no leap second.
pub open spec fn is_plain_point(secs: i64, nanos: u32) -> bool {
    FIRST_TIMESTAMP <= secs <= LAST_TIMESTAMP && nanos < 1000000000
}

/// Whether seconds and nanoseconds make a point in time: one that is in range; the
/// nanoseconds of a leap second, which ends a minute, run on past those of one second.
pub open spec fn is_point(secs: i64, nanos: u32) -> bool {
    is_plain_point(secs, nanos) || (FIRST_TIMESTAMP <= secs <= LAST_TIMESTAMP && nanos < 2000000000
        && secs % 60 == 59)
}

/// Whether a time zone can be so many seconds ahead of UTC: less than a day.
pub open spec fn is_offset(ahead: i32) -> bool {
    -86400 < ahead < 86400
}

/// The point in time that `chrono::DateTime::parse_from_rfc3339` reads from a text: its seconds
/// since 1970 and its nanoseconds; nothing where the text is no RFC 3339 date and time.
pub uninterp spec fn rfc3339_point(text: Seq<char>) -> Option<(i64, u32)>;

/// `chrono::DateTime::parse_from_rfc3339`: the point in time that a text denotes, which is one in
/// range. The grammar is not spelled out.
#[verifier::external_body]
pub(crate) fn rfc3339_time(text: &str) -> (r: Option<(i64, u32)>)
    ensures
        r == rfc3339_point(text@),
        r matches Some(point) ==> is_point(point.0, point.1),
{
    match chrono::DateTime::parse_from_rfc3339(text) {
        Ok(time) => Some((time.timestamp(), time.timestamp_subsec_nanos())),
        Err(_) => None,
    }
}

/// `chrono::Utc::now`: the point in time at which it is called, which is in range and no leap
/// second. Which one it is, is left to the clock.
#[verifier::external_body]
pub(crate) fn current_time() -> (r: (i64, u32))
    ensures
        is_plain_point(r.0, r.1),
{
    let now = chrono::Utc::now();
    (now.timestamp(), now.timestamp_subsec_nanos())
}

/// What `chrono::DateTime::signed_duration_since` gives for two points in time, in whole
/// seconds; nothing where one of them is none.
pub uninterp spec fn seconds_from_to(
    from_secs: i64,
    from_nanos: u32,
    to_secs: i64,
    to_nanos: u32,
) -> Option<i64>;

/// A number of nanoseconds in whole seconds, without the fraction.
pub open spec fn whole_seconds(nanos: int) -> int {
    if nanos >= 0 {
        nanos / 1000000000
    } else {
        -((-nanos) / 1000000000)
    }
}

/// The time from one point to another in whole seconds: without leap seconds that of the calendar,
/// else what chrono makes of it.
pub open spec fn seconds_apart(from: (i64, u32), to: (i64, u32)) -> Option<i64> {
    if is_plain_point(from.0, from.1) && is_plain_point(to.0, to.1) {
        Some(whole_seconds((to.0 - from.0) * 1000000000 + (to.1 - from.1)) as i64)
    } else {
        seconds_from_to(from.0, from.1, to.0, to.1)
    }
}

/// `chrono::DateTime::from_timestamp` and `chrono::DateTime::signed_duration_since`: the time
/// from one point to another in whole seconds, negative where the second one is earlier; nothing
/// exactly where one of them is none. What leap seconds add is not spelled out.
#[verifier::external_body]
pub(crate) fn seconds_between(
    from_secs: i64,
    from_nanos: u32,
    to_secs: i64,
    to_nanos: u32,
) -> (r: Option<i64>)
    ensures
        r == seconds_from_to(from_secs, from_nanos, to_secs, to_nanos),
        r is Some == (is_point(from_secs, from_nanos) && is_point(to_secs, to_nanos)),
        r == Some(
            whole_seconds((to_secs - from_secs) * 1000000000 + (to_nanos - from_nanos)) as i64,
        ) || !is_plain_point(from_secs, from_nanos) || !is_plain_point(to_secs, to_nanos),
{
    let earlier = chrono::DateTime::from_timestamp(from_secs, from_nanos)?;
    let later = chrono::DateTime::from_timestamp(to_secs, to_nanos)?;
    Some(later.signed_duration_since(earlier).num_seconds())
}

/// `chrono::DateTime::with_timezone` for the local time zone: how many seconds local time is
/// ahead of UTC at a point in time, less than a day; nothing exactly where that is no point. How
/// many, is left to the machine's time zone.
#[verifier::external_body]
pub(crate) fn local_offset(secs: i64, nanos: u32) -> (r: Option<i32>)
    ensures
        r is Some <==> is_point(secs, nanos),
        r matches Some(ahead) ==> is_offset(ahead),
{
    let time = chrono::DateTime::from_timestamp(secs, nanos)?;
    Some(time.with_timezone(&chrono::Local).offset().local_minus_utc())
}

/// What `chrono::DateTime::format` gives for `%Y-%m-%d %H:%M:%S`, a point in time and a number of
/// seconds ahead of UTC; nothing where there is no such point or no such time zone.
pub uninterp spec fn date_time(secs: i64, nanos: u32, offset: i32) -> Option<Seq<char>>;

/// `chrono::DateTime::format` for `%Y-%m-%d %H:%M:%S`: date and time of a point in time in the
/// time zone that is so many seconds ahead of UTC; nothing exactly where there is no such point or no
/// such time zone. The calendar is not spelled out.
#[verifier::external_body]
pub(crate) fn date_time_text(secs: i64, nanos: u32, offset: i32) -> (r: Option<String>)
    ensures
        crate::text::opt_text(r) == date_time(secs, nanos, offset),
        r is Some == (is_point(secs, nanos) && is_offset(offset)),
{
    let zone = chrono::FixedOffset::east_opt(offset)?;
    let time = chrono::DateTime::from_timestamp(secs, nanos)?.with_timezone(&zone);
    Some(time.format("%Y-%m-%d %H:%M:%S").to_string())
}

/// The clock shows the hour and the minute of the day, each with two digits: the tens and the
/// ones; whole days make no difference.
pub proof fn law_clock_shows_hour_and_minute(day: int, hour: int, minute: int, second: int)
    requires
        0 <= hour < 24,
        0 <= minute < 60,
        0 <= second < 60,
    ensures
        hour_minute(86400 * day + 3600 * hour + 60 * minute + second) == seq![
            ('0' as int + hour / 10) as char,
            ('0' as int + hour % 10) as char,
            ':',
            ('0' as int + minute / 10) as char,
            ('0' as int + minute % 10) as char,
        ],
{
    let secs = 86400 * day + 3600 * hour + 60 * minute + second;
    let of_day = 3600 * hour + 60 * minute + second;
    assert(secs % 86400 == of_day);
    assert(of_day / 3600 == hour);
    assert(of_day % 3600 / 60 == minute);
}

/// The time from one point to another is that from the other to the one, with its sign turned; it
/// is none from a point to itself, and a whole second more is one more.
pub proof fn law_seconds_apart(from: (i64, u32), to: (i64, u32))
    requires
        is_plain_point(from.0, from.1),
        is_plain_point(to.0, to.1),
    ensures
        seconds_apart(from, from) == Some(0i64),
        seconds_apart(from, to) is Some,
        seconds_apart(from, to)->0 == -(seconds_apart(to, from)->0),
        from.1 == to.1 ==> seconds_apart(from, to)->0 == to.0 - from.0,
        from.0 == to.0 ==> seconds_apart(from, to)->0 == 0,
{
}

} // verus!
