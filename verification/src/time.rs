//! Points in time and wall-clock times of day, and the few calls into
//! `chrono` and `chrono-tz` that turn one into the other.

use vstd::prelude::*;
use chrono::{Datelike, Offset, TimeZone, Timelike};

verus! {

/// A point in time: whole seconds since the Unix epoch, and the nanoseconds
/// elapsed within that second.
#[derive(Clone, Copy, Debug, PartialEq, Eq)]
pub struct Instant {
    pub secs: i64,
    pub nanos: u32,
}

impl Instant {
    /// The instant as a count of nanoseconds since the Unix epoch.
    pub open spec fn total_nanos(self) -> int {
        self.secs * 1_000_000_000 + self.nanos
    }

    /// Nanoseconds since the Unix epoch.
    pub fn nanos_since_epoch(&self) -> (r: i128)
        ensures
            r == self.total_nanos(),
    {
        (self.secs as i128) * 1_000_000_000 + (self.nanos as i128)
    }
}

/// A wall-clock time of day: seconds since midnight, and the nanoseconds
/// elapsed within that second (as `chrono::NaiveTime` holds it).
#[derive(Clone, Copy, Debug, PartialEq, Eq)]
pub struct TimeOfDay {
    pub secs: u32,
    pub nanos: u32,
}

/// Whether `a` comes before `b` in the day.
pub open spec fn time_lt(a: TimeOfDay, b: TimeOfDay) -> bool {
    a.secs < b.secs || (a.secs == b.secs && a.nanos < b.nanos)
}

/// Whether `a` comes no later than `b` in the day.
pub open spec fn time_le(a: TimeOfDay, b: TimeOfDay) -> bool {
    !time_lt(b, a)
}

impl TimeOfDay {
    /// The time `hour:min:sec` exactly, if each part is in range.
    pub fn from_hms(hour: u32, min: u32, sec: u32) -> (r: Option<TimeOfDay>)
        ensures
            (hour < 24 && min < 60 && sec < 60) ==> r == Some(
                TimeOfDay { secs: (hour * 3600 + min * 60 + sec) as u32, nanos: 0 },
            ),
            !(hour < 24 && min < 60 && sec < 60) ==> r is None,
    {
        if hour < 24 && min < 60 && sec < 60 {
            Some(TimeOfDay { secs: hour * 3600 + min * 60 + sec, nanos: 0 })
        } else {
            None
        }
    }

    /// Whether `self` comes before `other` in the day.
    pub fn is_before(&self, other: &TimeOfDay) -> (r: bool)
        ensures
            r == time_lt(*self, *other),
    {
        self.secs < other.secs || (self.secs == other.secs && self.nanos < other.nanos)
    }

    /// Whether `self` and `other` are the same time of day.
    pub fn same_as(&self, other: &TimeOfDay) -> (r: bool)
        ensures
            r == (*self == *other),
    {
        self.secs == other.secs && self.nanos == other.nanos
    }
}

/// A date and a wall-clock time of day; the date is counted in days from the
/// common era, 0001-01-01 being day 1 (as `chrono`'s `num_days_from_ce`).
#[derive(Clone, Copy, Debug, PartialEq, Eq)]
pub struct LocalDateTime {
    pub date: i32,
    pub time: TimeOfDay,
}

/// The date, seconds since midnight and nanoseconds that the wall clock in
/// Tokyo shows at the instant `secs`, `nanos` after the Unix epoch, as
/// `chrono-tz` computes it; `None` where `chrono` cannot represent them.
pub uninterp spec fn tokyo_wall_clock_of(secs: i64, nanos: u32) -> Option<(i32, u32, u32)>;

/// The instant, as seconds and nanoseconds after the Unix epoch, at which the
/// wall clock in Tokyo shows the given date and time, as `chrono-tz` computes
/// it; `None` where there is no single such instant or `chrono` cannot
/// represent it.
pub uninterp spec fn tokyo_instant_of(date: i32, secs: u32, nanos: u32) -> Option<(i64, u32)>;

/// The day number `days` days after `date`, when both lie within
/// `chrono::NaiveDate`'s range.
pub open spec fn naive_days_after(date: int, days: int) -> Option<i32> {
    if NAIVE_DATE_MIN_DAY <= date <= NAIVE_DATE_MAX_DAY && date + days <= NAIVE_DATE_MAX_DAY {
        Some((date + days) as i32)
    } else {
        None
    }
}

/// Day number (days from the common era) of 1970-01-01.
pub const UNIX_EPOCH_DAY: i32 = 719_163;

/// Day numbers of `chrono::NaiveDate::MIN` (January 1, 262144 BCE) and
/// `NaiveDate::MAX` (December 31, 262142 CE).
pub const NAIVE_DATE_MIN_DAY: i32 = -95_746_129;

pub const NAIVE_DATE_MAX_DAY: i32 = 95_745_399;

/// The offset of Tokyo time from UTC, in seconds.
pub const TOKYO_OFFSET_SECS: i64 = 32_400;

/// The last second (after the Unix epoch) of the span over which the crate
/// relies on Tokyo's fixed offset: the last second whose Tokyo date is the
/// day before `NaiveDate::MAX`, so that the next day is still a `NaiveDate`.
pub const FIXED_OFFSET_LAST_SECS: i64 = 8_210_266_757_999;

/// A time of day that exists on every day: before midnight, and not a leap second.
pub open spec fn valid_time_of_day(t: TimeOfDay) -> bool {
    t.secs < 86_400 && t.nanos < 1_000_000_000
}

/// Instants from the Unix epoch up to the last second whose Tokyo date
/// precedes `NaiveDate::MAX` (December 30, 262142 CE), and not inside a leap
/// second (the system clock never reads one: `utc_now` gives nanoseconds
/// below one second).
pub open spec fn in_fixed_offset_span(now: Instant) -> bool {
    0 <= now.secs <= FIXED_OFFSET_LAST_SECS && now.nanos < 1_000_000_000
}

/// The Tokyo wall clock at `now` when Tokyo time is UTC+9.
pub open spec fn fixed_offset_local(now: Instant) -> LocalDateTime {
    let local_secs = now.secs + TOKYO_OFFSET_SECS;
    LocalDateTime {
        date: (local_secs / 86_400 + UNIX_EPOCH_DAY) as i32,
        time: TimeOfDay { secs: (local_secs % 86_400) as u32, nanos: now.nanos },
    }
}

/// Wall-clock readings from 1970-01-01 to `NaiveDate::MAX` at times of day
/// that exist on every day (a leap second, nanoseconds of one second or
/// more, is left out).
pub open spec fn in_fixed_offset_dates(local: LocalDateTime) -> bool {
    UNIX_EPOCH_DAY <= local.date <= NAIVE_DATE_MAX_DAY && valid_time_of_day(local.time)
}

/// The instant at which the Tokyo wall clock shows `local` when Tokyo time is UTC+9.
pub open spec fn fixed_offset_instant(local: LocalDateTime) -> Instant {
    Instant {
        secs: ((local.date - UNIX_EPOCH_DAY) * 86_400 + local.time.secs - TOKYO_OFFSET_SECS) as i64,
        nanos: local.time.nanos,
    }
}

/// The wall-clock reading in Tokyo at `now`.
pub open spec fn spec_tokyo_wall_clock(now: Instant) -> Option<LocalDateTime> {
    match tokyo_wall_clock_of(now.secs, now.nanos) {
        Some((d, s, n)) => Some(LocalDateTime { date: d, time: TimeOfDay { secs: s, nanos: n } }),
        None => None,
    }
}

/// The instant at which the Tokyo wall clock shows `local`.
pub open spec fn spec_tokyo_instant(local: LocalDateTime) -> Option<Instant> {
    match tokyo_instant_of(local.date, local.time.secs, local.time.nanos) {
        Some((s, n)) => Some(Instant { secs: s, nanos: n }),
        None => None,
    }
}

/// `DateTime::with_timezone(&chrono_tz::Asia::Tokyo)` on the instant, read
/// back as a naive local date and time. The contract ties the result to the
/// instant through the name [`tokyo_wall_clock_of`], and states it outright
/// from 1970 on: `chrono-tz`'s table for Asia/Tokyo has its last transition
/// in 1951, after which the offset is UTC+9 with no daylight saving time.
#[verifier::external_body]
pub(crate) fn tokyo_wall_clock(now: Instant) -> (r: Option<LocalDateTime>)
    ensures
        r == (match tokyo_wall_clock_of(now.secs, now.nanos) {
            Some((d, s, n)) => Some(LocalDateTime { date: d, time: TimeOfDay { secs: s, nanos: n } }),
            None => None,
        }),
        in_fixed_offset_span(now) ==> r == Some(fixed_offset_local(now)),
{
    let utc = chrono::DateTime::from_timestamp(now.secs, now.nanos)?;
    let offset = chrono_tz::Asia::Tokyo.offset_from_utc_datetime(&utc.naive_utc()).fix();
    let local = utc.naive_utc().checked_add_offset(offset)?;
    let time = TimeOfDay { secs: local.time().num_seconds_from_midnight(), nanos: local.time().nanosecond() };
    Some(LocalDateTime { date: local.date().num_days_from_ce(), time })
}

/// `NaiveDate::checked_add_days` on the date with day number `date`: the
/// date `days` days later, when both lie within `NaiveDate`'s range.
#[verifier::external_body]
pub(crate) fn days_after(date: i32, days: u64) -> (r: Option<i32>)
    ensures
        r == naive_days_after(date as int, days as int),
{
    let start = chrono::NaiveDate::from_num_days_from_ce_opt(date)?;
    match start.checked_add_days(chrono::Days::new(days)) {
        Some(d) => Some(d.num_days_from_ce()),
        None => None,
    }
}

/// `NaiveDateTime::and_local_timezone(chrono_tz::Asia::Tokyo)` followed by
/// `single()`: the one instant at which the Tokyo wall clock shows `local`.
/// The contract ties it to `local` through the name [`tokyo_instant_of`], and
/// states it outright from 1970 to the end of `NaiveDate`'s range, when Asia/Tokyo in `chrono-tz`'s
/// table is a fixed UTC+9 and every existing time of day maps to one instant.
#[verifier::external_body]
pub(crate) fn tokyo_instant(local: LocalDateTime) -> (r: Option<Instant>)
    ensures
        r == (match tokyo_instant_of(local.date, local.time.secs, local.time.nanos) {
            Some((s, n)) => Some(Instant { secs: s, nanos: n }),
            None => None,
        }),
        in_fixed_offset_dates(local) ==> r == Some(fixed_offset_instant(local)),
{
    let date = chrono::NaiveDate::from_num_days_from_ce_opt(local.date)?;
    let time = chrono::NaiveTime::from_num_seconds_from_midnight_opt(local.time.secs, local.time.nanos)?;
    let zoned = date.and_time(time).and_local_timezone(chrono_tz::Asia::Tokyo).single()?;
    Some(Instant { secs: zoned.timestamp(), nanos: zoned.timestamp_subsec_nanos() })
}

/// `std::time::UNIX_EPOCH.elapsed()`: the system clock's reading as the time
/// elapsed since the Unix epoch; `None` where that call fails (the clock reads
/// before the epoch) or the whole seconds do not fit an `i64`. Nothing is
/// stated of which reading comes back.
#[verifier::external_body]
pub(crate) fn utc_now() -> (r: Option<Instant>)
    ensures
        r matches Some(i) ==> i.secs >= 0 && i.nanos < 1_000_000_000,
{
    match std::time::UNIX_EPOCH.elapsed() {
        Ok(d) => match i64::try_from(d.as_secs()) {
            Ok(secs) => Some(Instant { secs, nanos: d.subsec_nanos() }),
            Err(_) => None,
        },
        Err(_) => None,
    }
}

} // verus!
