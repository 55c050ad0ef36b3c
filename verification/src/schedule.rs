//! When the next measurement is due, and how to wait for it.

use vstd::prelude::*;

use crate::time::{
    days_after, fixed_offset_instant, fixed_offset_local, in_fixed_offset_dates,
    in_fixed_offset_span, naive_days_after, spec_tokyo_instant, spec_tokyo_wall_clock, time_le,
    time_lt, tokyo_instant, tokyo_wall_clock, utc_now, valid_time_of_day, Instant, LocalDateTime,
    TimeOfDay, NAIVE_DATE_MAX_DAY, FIXED_OFFSET_LAST_SECS, TOKYO_OFFSET_SECS,
    UNIX_EPOCH_DAY,
};

verus! {

/// Waits longer than this many seconds are spent in deep sleep.
pub const SECONDS_TO_USE_DEEP_SLEEP: i64 = 180;

/// Nanoseconds in a day.
pub const NANOS_PER_DAY: i128 = 86_400_000_000_000;

/// Which of the measurement times comes next: the time at `index`, today or
/// on the next day.
#[derive(Clone, Copy, Debug, PartialEq, Eq)]
pub struct MeasureSlot {
    pub next_day: bool,
    pub index: usize,
}

/// The first `i`, from `from` on, whose time is not before `now`.
pub open spec fn first_not_before_from(times: Seq<TimeOfDay>, now: TimeOfDay, from: int) -> Option<
    int,
>
    decreases times.len() - from,
{
    if from < 0 || from >= times.len() {
        None
    } else if time_le(now, times[from]) {
        Some(from)
    } else {
        first_not_before_from(times, now, from + 1)
    }
}

/// The slot of the next measurement at the time of day `now`: none without
/// measurement times; the first time today that is not before `now`; and,
/// when every time of the day has passed, the first time on the next day.
pub open spec fn spec_next_measure_slot(times: Seq<TimeOfDay>, now: TimeOfDay) -> Option<MeasureSlot> {
    if times.len() == 0 {
        None
    } else {
        match first_not_before_from(times, now, 0) {
            Some(i) => Some(MeasureSlot { next_day: false, index: i as usize }),
            None => Some(MeasureSlot { next_day: true, index: 0 }),
        }
    }
}

/// The slot of the next measurement among `times` at the time of day `now`.
pub fn next_measure_slot(times: &[TimeOfDay], now: TimeOfDay) -> (r: Option<MeasureSlot>)
    ensures
        r == spec_next_measure_slot(times@, now),
        r is None <==> times@.len() == 0,
        r matches Some(s) ==> (!s.next_day ==> s.index < times@.len() && time_le(
            now,
            times@[s.index as int],
        ) && forall|j: int| 0 <= j < s.index ==> time_lt(#[trigger] times@[j], now)),
        r matches Some(s) ==> (s.next_day ==> s.index == 0 && forall|j: int|
            0 <= j < times@.len() ==> time_lt(#[trigger] times@[j], now)),
{
    proof {
        lemma_first_not_before(times@, now, 0);
    }
    let n = times.len();
    if n == 0 {
        return None;
    }
    let mut i: usize = 0;
    while i < n
        invariant
            n == times@.len(),
            n >= 1,
            i <= n,
            first_not_before_from(times@, now, 0) == first_not_before_from(times@, now, i as int),
        decreases n - i,
    {
        if !times[i].is_before(&now) {
            proof {
                lemma_first_not_before(times@, now, 0);
            }
            return Some(MeasureSlot { next_day: false, index: i });
        }
        i = i + 1;
    }
    Some(MeasureSlot { next_day: true, index: 0 })
}

/// Measurement times in order (as the schedule must be).
pub open spec fn sorted_times(times: Seq<TimeOfDay>) -> bool {
    forall|i: int, j: int| 0 <= i <= j < times.len() ==> time_le(times[i], times[j])
}

/// Measurement times in strictly increasing order.
pub open spec fn strictly_increasing(times: Seq<TimeOfDay>) -> bool {
    forall|i: int, j: int| 0 <= i < j < times.len() ==> time_lt(times[i], times[j])
}

/// Measurement times that exist on every day.
pub open spec fn valid_times(times: Seq<TimeOfDay>) -> bool {
    forall|i: int| 0 <= i < times.len() ==> valid_time_of_day(#[trigger] times[i])
}

proof fn lemma_first_not_before(times: Seq<TimeOfDay>, now: TimeOfDay, from: int)
    requires
        0 <= from,
    ensures
        first_not_before_from(times, now, from) matches Some(k) ==> from <= k < times.len()
            && time_le(now, times[k]) && forall|j: int|
            from <= j < k ==> time_lt(#[trigger] times[j], now),
        first_not_before_from(times, now, from) is None ==> forall|j: int|
            from <= j < times.len() ==> time_lt(#[trigger] times[j], now),
    decreases times.len() - from,
{
    if from < times.len() && !time_le(now, times[from]) {
        lemma_first_not_before(times, now, from + 1);
    }
}

/// The next measurement is the earliest measurement time not before `now`
/// on the same day, or, when every time has passed, the first time on the
/// next day; for any non-empty schedule in order.
pub proof fn law_next_slot_is_earliest_upcoming(times: Seq<TimeOfDay>, now: TimeOfDay)
    requires
        sorted_times(times),
        1 <= times.len() <= usize::MAX,
    ensures
        spec_next_measure_slot(times, now) matches Some(slot) && (if !slot.next_day {
            &&& 0 <= slot.index < times.len()
            &&& time_le(now, times[slot.index as int])
            &&& forall|j: int|
                0 <= j < times.len() && time_le(now, #[trigger] times[j]) ==> time_le(
                    times[slot.index as int],
                    times[j],
                )
        } else {
            &&& slot.index == 0
            &&& forall|j: int| 0 <= j < times.len() ==> time_lt(#[trigger] times[j], now)
        }),
{
    lemma_first_not_before(times, now, 0);
    match first_not_before_from(times, now, 0) {
        Some(k) => {
            assert forall|j: int|
                0 <= j < times.len() && time_le(now, #[trigger] times[j]) implies time_le(
                times[k],
                times[j],
            ) by {
                if j < k {
                    assert(time_lt(times[j], now));
                }
            }
        },
        None => {},
    }
}

/// At a measurement time, the next measurement is that very time: for
/// strictly increasing times, the slot at `times[k]` is `k`, today.
pub proof fn law_slot_at_measurement_time(times: Seq<TimeOfDay>, k: int)
    requires
        strictly_increasing(times),
        times.len() <= usize::MAX,
        0 <= k < times.len(),
    ensures
        spec_next_measure_slot(times, times[k]) == Some(
            MeasureSlot { next_day: false, index: k as usize },
        ),
{
    let now = times[k];
    lemma_first_not_before(times, now, 0);
    match first_not_before_from(times, now, 0) {
        Some(i) => {
            if i > k {
                assert(time_lt(times[k], now));
            } else if i < k {
                assert(time_lt(times[i], times[k]));
            }
        },
        None => {
            assert(time_lt(times[k], now));
        },
    }
}

/// Whether slot `a` comes no later than slot `b` in the schedule `times`.
pub open spec fn slot_no_later(times: Seq<TimeOfDay>, a: MeasureSlot, b: MeasureSlot) -> bool {
    ||| !a.next_day && b.next_day
    ||| a.next_day == b.next_day && time_le(times[a.index as int], times[b.index as int])
}

/// Asking later in the day never gives an earlier next measurement: for a
/// non-empty schedule in order, if `now1` is not after `now2` then the slot
/// at `now1` comes no later than the slot at `now2`.
pub proof fn law_next_slot_monotone(times: Seq<TimeOfDay>, now1: TimeOfDay, now2: TimeOfDay)
    requires
        sorted_times(times),
        1 <= times.len() <= usize::MAX,
        time_le(now1, now2),
    ensures
        spec_next_measure_slot(times, now1) matches Some(a) && spec_next_measure_slot(
            times,
            now2,
        ) matches Some(b) && slot_no_later(times, a, b),
{
    law_next_slot_is_earliest_upcoming(times, now1);
    law_next_slot_is_earliest_upcoming(times, now2);
    let a = spec_next_measure_slot(times, now1).unwrap();
    let b = spec_next_measure_slot(times, now2).unwrap();
    if a.next_day {
        if !b.next_day {
            assert(time_lt(times[b.index as int], now1));
        }
    }
}

/// The wall-clock date and time of the next measurement, given the Tokyo
/// wall clock `local` at the moment of asking; `None` inside when there are
/// no measurement times; `None` outside where `chrono` cannot represent the
/// next day.
pub open spec fn spec_measure_target(times: Seq<TimeOfDay>, local: LocalDateTime) -> Option<
    Option<LocalDateTime>,
> {
    match spec_next_measure_slot(times, local.time) {
        None => Some(None),
        Some(slot) => if slot.next_day {
            match naive_days_after(local.date as int, 1) {
                Some(d) => Some(Some(LocalDateTime { date: d, time: times[slot.index as int] })),
                None => None,
            }
        } else {
            Some(Some(LocalDateTime { date: local.date, time: times[slot.index as int] }))
        },
    }
}

/// The instant of the next measurement asked at `now`: `Some(None)` when
/// there are no measurement times, `Some(Some(t))` with the instant `t` at
/// which the Tokyo wall clock shows the next measurement time, and `None`
/// where `chrono` cannot represent a date or instant on the way.
pub open spec fn spec_measure_time(times: Seq<TimeOfDay>, now: Instant) -> Option<Option<Instant>> {
    if times.len() == 0 {
        Some(None)
    } else {
        match spec_tokyo_wall_clock(now) {
            None => None,
            Some(local) => match spec_measure_target(times, local) {
                None => None,
                Some(None) => Some(None),
                Some(Some(target)) => match spec_tokyo_instant(target) {
                    Some(t) => Some(Some(t)),
                    None => None,
                },
            },
        }
    }
}

/// Could not compute the next measurement time: `chrono` cannot represent a
/// date or instant on the way.
#[derive(Clone, Copy, Debug, PartialEq, Eq)]
pub struct OutOfRange;

/// [`spec_measure_time`] as a result: `Err` where `chrono` fails.
pub open spec fn measure_time_result(m: Option<Option<Instant>>) -> Result<Option<Instant>, OutOfRange> {
    match m {
        Some(t) => Ok(t),
        None => Err(OutOfRange),
    }
}

proof fn lemma_fixed_offset_local(now: Instant)
    requires
        in_fixed_offset_span(now),
    ensures
        ({
            let local = fixed_offset_local(now);
            &&& UNIX_EPOCH_DAY <= local.date < NAIVE_DATE_MAX_DAY
            &&& valid_time_of_day(local.time)
            &&& (local.date - UNIX_EPOCH_DAY) * 86_400 + local.time.secs - TOKYO_OFFSET_SECS
                == now.secs
        }),
{
    let l: int = now.secs + TOKYO_OFFSET_SECS;
    vstd::arithmetic::div_mod::lemma_fundamental_div_mod(l, 86_400);
    vstd::arithmetic::div_mod::lemma_mod_pos_bound(l, 86_400);
    assert(0 <= l / 86_400 <= 95_026_235) by (nonlinear_arith)
        requires
            0 <= l <= FIXED_OFFSET_LAST_SECS + TOKYO_OFFSET_SECS,
    ;
}

/// The wall-clock date and time of the next measurement asked at `now`,
/// when Tokyo time is UTC+9.
pub open spec fn fixed_measure_target(times: Seq<TimeOfDay>, now: Instant) -> LocalDateTime {
    let local = fixed_offset_local(now);
    let slot = spec_next_measure_slot(times, local.time).unwrap();
    LocalDateTime {
        date: (local.date + if slot.next_day {
            1int
        } else {
            0int
        }) as i32,
        time: times[slot.index as int],
    }
}

/// The instant of the next measurement asked at `now`, when Tokyo time is UTC+9.
pub open spec fn fixed_measure_time(times: Seq<TimeOfDay>, now: Instant) -> Instant {
    fixed_offset_instant(fixed_measure_target(times, now))
}

proof fn lemma_fixed_instant_order(a: LocalDateTime, b: LocalDateTime)
    requires
        in_fixed_offset_dates(a),
        in_fixed_offset_dates(b),
        a.date < b.date || (a.date == b.date && time_le(a.time, b.time)),
    ensures
        fixed_offset_instant(a).total_nanos() <= fixed_offset_instant(b).total_nanos(),
{
}

/// A later clock reading never gives an earlier next measurement: for a
/// non-empty schedule in order whose times exist on every day, and readings
/// from 1970 to the day before `NaiveDate::MAX` (where Tokyo time is UTC+9), if `now1` is not after
/// `now2` then the next measurement asked at `now1` is not after the one
/// asked at `now2`.
pub proof fn law_measure_time_monotone(times: Seq<TimeOfDay>, now1: Instant, now2: Instant)
    requires
        sorted_times(times),
        valid_times(times),
        1 <= times.len() <= usize::MAX,
        in_fixed_offset_span(now1),
        in_fixed_offset_span(now2),
        now1.total_nanos() <= now2.total_nanos(),
    ensures
        fixed_measure_time(times, now1).total_nanos() <= fixed_measure_time(
            times,
            now2,
        ).total_nanos(),
{
    let l1 = fixed_offset_local(now1);
    let l2 = fixed_offset_local(now2);
    lemma_fixed_offset_local(now1);
    lemma_fixed_offset_local(now2);
    vstd::arithmetic::div_mod::lemma_div_is_ordered(
        now1.secs + TOKYO_OFFSET_SECS,
        now2.secs + TOKYO_OFFSET_SECS,
        86_400,
    );
    law_next_slot_is_earliest_upcoming(times, l1.time);
    law_next_slot_is_earliest_upcoming(times, l2.time);
    let s1 = spec_next_measure_slot(times, l1.time).unwrap();
    let s2 = spec_next_measure_slot(times, l2.time).unwrap();
    let t1 = fixed_measure_target(times, now1);
    let t2 = fixed_measure_target(times, now2);
    assert(valid_time_of_day(times[s1.index as int]));
    assert(valid_time_of_day(times[s2.index as int]));
    if l1.date == l2.date {
        assert(time_le(l1.time, l2.time));
        law_next_slot_monotone(times, l1.time, l2.time);
    } else {
        if t1.date == t2.date {
            assert(s1.next_day && !s2.next_day);
            assert(time_le(times[0], times[s2.index as int]));
        }
    }
    lemma_fixed_instant_order(t1, t2);
}

/// The instant at which the Tokyo wall clock shows `times[k]` on the day
/// `d` days after the day of `now`, when Tokyo time is UTC+9.
pub open spec fn candidate_instant(times: Seq<TimeOfDay>, now: Instant, k: int, d: int) -> Instant {
    fixed_offset_instant(
        LocalDateTime { date: (fixed_offset_local(now).date + d) as i32, time: times[k] },
    )
}

/// The next measurement is the earliest of the candidates, today's and the
/// next day's measurement times, that is not before `now`: for a non-empty
/// schedule in order whose times exist on every day, and readings from 1970
/// to the day before `NaiveDate::MAX`, [`fixed_measure_time`] is a candidate,
/// not before `now`, and no candidate not before `now` comes earlier.
pub proof fn law_measure_time_is_least_candidate(times: Seq<TimeOfDay>, now: Instant)
    requires
        sorted_times(times),
        valid_times(times),
        1 <= times.len() <= usize::MAX,
        in_fixed_offset_span(now),
    ensures
        exists|k: int, d: int|
            0 <= k < times.len() && 0 <= d <= 1 && fixed_measure_time(times, now)
                == #[trigger] candidate_instant(times, now, k, d),
        now.total_nanos() <= fixed_measure_time(times, now).total_nanos(),
        forall|k: int, d: int|
            0 <= k < times.len() && 0 <= d <= 1 && now.total_nanos() <= #[trigger] candidate_instant(
                times,
                now,
                k,
                d,
            ).total_nanos() ==> fixed_measure_time(times, now).total_nanos()
                <= candidate_instant(times, now, k, d).total_nanos(),
{
    let local = fixed_offset_local(now);
    lemma_fixed_offset_local(now);
    law_next_slot_is_earliest_upcoming(times, local.time);
    let slot = spec_next_measure_slot(times, local.time).unwrap();
    let dd: int = if slot.next_day {
        1
    } else {
        0
    };
    let t = fixed_measure_time(times, now);
    assert(t == candidate_instant(times, now, slot.index as int, dd));
    assert(valid_time_of_day(times[slot.index as int]));
    if slot.next_day {
        assert(time_lt(times[0], local.time));
    }
    assert forall|k: int, d: int|
        0 <= k < times.len() && 0 <= d <= 1 && now.total_nanos() <= #[trigger] candidate_instant(
            times,
            now,
            k,
            d,
        ).total_nanos() implies t.total_nanos() <= candidate_instant(times, now, k, d).total_nanos() by {
        assert(valid_time_of_day(times[k]));
        let c = LocalDateTime { date: (local.date + d) as i32, time: times[k] };
        let tt = fixed_measure_target(times, now);
        if d == 0 {
            assert(time_le(local.time, times[k]));
            assert(!slot.next_day);
            assert(time_le(times[slot.index as int], times[k]));
            lemma_fixed_instant_order(tt, c);
        } else {
            if slot.next_day {
                assert(time_le(times[0], times[k]));
            }
            lemma_fixed_instant_order(tt, c);
        }
    }
}

/// The instant of the next measurement, asked at `now`, for the measurement
/// times of day `times` in Tokyo: `Ok(None)` when there are no times, and
/// `Err` where `chrono` cannot represent a date or instant on the way. From
/// 1970 to the day before `NaiveDate::MAX`, outside leap seconds, and for
/// times that exist on every day, the result is not
/// before `now` and less than a day after it, and it is `now` itself when
/// `now` is a measurement time.
pub fn next_measure_time_at(times: &[TimeOfDay], now: Instant) -> (r: Result<
    Option<Instant>,
    OutOfRange,
>)
    ensures
        r == measure_time_result(spec_measure_time(times@, now)),
        in_fixed_offset_span(now) && valid_times(times@) && times@.len() > 0 ==> (r matches Ok(
            Some(t),
        ) && now.total_nanos() <= t.total_nanos() < now.total_nanos() + NANOS_PER_DAY),
        in_fixed_offset_span(now) && valid_times(times@) && times@.len() > 0 ==> r == Ok::<
            Option<Instant>,
            OutOfRange,
        >(Some(fixed_measure_time(times@, now))),
        in_fixed_offset_span(now) && valid_times(times@) && strictly_increasing(times@)
            && times@.contains(fixed_offset_local(now).time) ==> r == Ok::<
            Option<Instant>,
            OutOfRange,
        >(Some(now)),
        in_fixed_offset_span(now) && valid_times(times@) && sorted_times(times@) && times@.len()
            > 0 ==> (r matches Ok(Some(t)) && (exists|k: int, d: int|
            0 <= k < times@.len() && 0 <= d <= 1 && t == #[trigger] candidate_instant(
                times@,
                now,
                k,
                d,
            )) && forall|k: int, d: int|
            0 <= k < times@.len() && 0 <= d <= 1 && now.total_nanos()
                <= #[trigger] candidate_instant(times@, now, k, d).total_nanos()
                ==> t.total_nanos() <= candidate_instant(times@, now, k, d).total_nanos()),
{
    if times.len() == 0 {
        return Ok(None);
    }
    let local = match tokyo_wall_clock(now) {
        Some(l) => l,
        None => return Err(OutOfRange),
    };
    proof {
        if in_fixed_offset_span(now) {
            lemma_fixed_offset_local(now);
        }
    }
    let slot = match next_measure_slot(times, local.time) {
        Some(s) => s,
        None => return Ok(None),
    };
    proof {
        lemma_first_not_before(times@, local.time, 0);
    }
    let date = if slot.next_day {
        match days_after(local.date, 1) {
            Some(d) => d,
            None => return Err(OutOfRange),
        }
    } else {
        local.date
    };
    let target = LocalDateTime { date, time: times[slot.index] };
    let result = tokyo_instant(target);
    proof {
        if in_fixed_offset_span(now) && valid_times(times@) {
            assert(valid_time_of_day(times@[slot.index as int]));
            assert(in_fixed_offset_dates(target));
            let t = fixed_offset_instant(target);
            let tk = times@[slot.index as int];
            assert(target == fixed_measure_target(times@, now));
            if slot.next_day {
                assert(time_lt(times@[0], local.time));
                assert(t.secs == now.secs - local.time.secs + 86_400 + tk.secs);
            } else {
                assert(t.secs == now.secs - local.time.secs + tk.secs);
            }
            if sorted_times(times@) {
                law_measure_time_is_least_candidate(times@, now);
            }
            if strictly_increasing(times@) && times@.contains(local.time) {
                let k = choose|k: int| 0 <= k < times@.len() && times@[k] == local.time;
                law_slot_at_measurement_time(times@, k);
            }
        }
    }
    match result {
        Some(t) => Ok(Some(t)),
        None => Err(OutOfRange),
    }
}

/// Why the next measurement time asked now could not be computed.
#[derive(Clone, Copy, Debug, PartialEq, Eq)]
pub enum MeasureTimeError {
    /// `chrono` cannot represent a date or instant on the way.
    OutOfRange,
    /// The system clock reads before the Unix epoch (or further after it
    /// than an `i64` count of seconds holds).
    ClockBeforeEpoch,
}

/// [`spec_measure_time`] as the result of asking with the clock.
pub open spec fn clock_measure_time_result(m: Option<Option<Instant>>) -> Result<
    Option<Instant>,
    MeasureTimeError,
> {
    match m {
        Some(t) => Ok(t),
        None => Err(MeasureTimeError::OutOfRange),
    }
}

/// The instant of the next measurement, asked now by the system clock, as
/// [`next_measure_time_at`] computes it for the clock's reading; `Ok(None)`
/// without measurement times (the clock is not read then), and `Err` with
/// [`MeasureTimeError::ClockBeforeEpoch`] when the clock cannot be read.
pub fn next_measure_time(times: &[TimeOfDay]) -> (r: Result<Option<Instant>, MeasureTimeError>)
    ensures
        times@.len() == 0 ==> r == Ok::<Option<Instant>, MeasureTimeError>(None),
        r != Err::<Option<Instant>, MeasureTimeError>(MeasureTimeError::ClockBeforeEpoch)
            ==> exists|now: Instant|
            {
                &&& now.secs >= 0
                &&& now.nanos < 1_000_000_000
                &&& r == clock_measure_time_result(#[trigger] spec_measure_time(times@, now))
                &&& (in_fixed_offset_span(now) && valid_times(times@) && times@.len() > 0 ==> (
                r matches Ok(Some(t)) && t == fixed_measure_time(times@, now) && now.total_nanos()
                    <= t.total_nanos() < now.total_nanos() + NANOS_PER_DAY))
                &&& (in_fixed_offset_span(now) && valid_times(times@) && strictly_increasing(
                    times@,
                ) && times@.contains(fixed_offset_local(now).time) ==> r == Ok::<
                    Option<Instant>,
                    MeasureTimeError,
                >(Some(now)))
            },
{
    if times.len() == 0 {
        proof {
            let w = Instant { secs: 0, nanos: 0 };
            assert(spec_measure_time(times@, w) == Some(None::<Instant>));
            assert(!times@.contains(fixed_offset_local(w).time));
        }
        return Ok(None);
    }
    let now = match utc_now() {
        Some(n) => n,
        None => return Err(MeasureTimeError::ClockBeforeEpoch),
    };
    match next_measure_time_at(times, now) {
        Ok(t) => Ok(t),
        Err(OutOfRange) => Err(MeasureTimeError::OutOfRange),
    }
}

/// The nanoseconds from `now` until the moment `lead_secs` seconds before
/// `expected`, if that moment is still ahead.
pub open spec fn spec_deep_sleep_span(now: Instant, expected: Instant) -> Option<int> {
    let wake = expected.total_nanos() - SECONDS_TO_USE_DEEP_SLEEP * 1_000_000_000;
    if now.total_nanos() < wake {
        Some(wake - now.total_nanos())
    } else {
        None
    }
}

/// Deep sleep ends exactly three minutes before the measurement: a span is
/// planned exactly when `now` is more than 180 s before `expected`, and it is
/// then the nanoseconds from `now` to 180 s before `expected`.
pub proof fn law_deep_sleep_ends_three_minutes_before(now: Instant, expected: Instant)
    ensures
        spec_deep_sleep_span(now, expected) is Some <==> now.total_nanos() + 180_000_000_000
            < expected.total_nanos(),
        spec_deep_sleep_span(now, expected) matches Some(d) ==> d > 0 && now.total_nanos() + d
            + 180_000_000_000 == expected.total_nanos(),
{
}

/// How long to deep-sleep before a measurement due at `expected`: until
/// [`SECONDS_TO_USE_DEEP_SLEEP`] seconds before it, if that moment is still
/// ahead of `now`; `None` when the wait is short enough to sleep normally.
pub fn deep_sleep_span(now: Instant, expected: Instant) -> (r: Option<i128>)
    ensures
        r matches Some(d) ==> spec_deep_sleep_span(now, expected) == Some(d as int),
        r is None ==> spec_deep_sleep_span(now, expected) is None,
        now.total_nanos() < expected.total_nanos() - 180_000_000_000 ==> r == Some(
            (expected.total_nanos() - 180_000_000_000 - now.total_nanos()) as i128,
        ),
        now.total_nanos() >= expected.total_nanos() - 180_000_000_000 ==> r is None,
        r matches Some(d) ==> d > 0 && now.total_nanos() + d + 180_000_000_000
            == expected.total_nanos(),
{
    let wake = expected.nanos_since_epoch() - (SECONDS_TO_USE_DEEP_SLEEP as i128) * 1_000_000_000;
    let current = now.nanos_since_epoch();
    if current < wake {
        Some(wake - current)
    } else {
        None
    }
}

/// How long to sleep before a measurement due at `expected`: `None` once
/// `now` has reached it, and the nanoseconds left otherwise.
pub fn remaining_wait(now: Instant, expected: Instant) -> (r: Option<i128>)
    ensures
        now.total_nanos() >= expected.total_nanos() ==> r is None,
        now.total_nanos() < expected.total_nanos() ==> r == Some(
            (expected.total_nanos() - now.total_nanos()) as i128,
        ),
{
    let current = now.nanos_since_epoch();
    let due = expected.nanos_since_epoch();
    if current >= due {
        None
    } else {
        Some(due - current)
    }
}

} // verus!
