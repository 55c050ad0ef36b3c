use room_monitoring::schedule::{
    deep_sleep_span, next_measure_slot, next_measure_time, next_measure_time_at, remaining_wait,
    MeasureSlot, OutOfRange,
};
use room_monitoring::time::{Instant, TimeOfDay};

fn hms(h: u32, m: u32, s: u32) -> TimeOfDay {
    TimeOfDay::from_hms(h, m, s).unwrap()
}

fn measurement_times() -> Vec<TimeOfDay> {
    vec![
        hms(0, 0, 0),
        hms(3, 0, 0),
        hms(6, 0, 0),
        hms(9, 0, 0),
        hms(12, 0, 0),
        hms(15, 0, 0),
        hms(16, 10, 0),
        hms(18, 0, 0),
        hms(21, 0, 0),
    ]
}

fn at(secs: i64) -> Instant {
    Instant { secs, nanos: 0 }
}

#[test]
fn from_hms_builds_and_refuses() {
    assert_eq!(TimeOfDay::from_hms(16, 10, 0), Some(TimeOfDay { secs: 58200, nanos: 0 }));
    assert_eq!(TimeOfDay::from_hms(24, 0, 0), None);
    assert_eq!(TimeOfDay::from_hms(0, 60, 0), None);
    assert_eq!(TimeOfDay::from_hms(0, 0, 60), None);
}

#[test]
fn slot_none_without_times() {
    assert_eq!(next_measure_slot(&[], hms(1, 0, 0)), None);
}

#[test]
fn slot_single_time_passed_is_tomorrow() {
    let times = [hms(6, 0, 0)];
    assert_eq!(
        next_measure_slot(&times, hms(7, 0, 0)),
        Some(MeasureSlot { next_day: true, index: 0 })
    );
    assert_eq!(
        next_measure_slot(&times, hms(5, 0, 0)),
        Some(MeasureSlot { next_day: false, index: 0 })
    );
}

#[test]
fn slot_before_the_first_time_is_today() {
    let times = [hms(6, 0, 0), hms(9, 0, 0)];
    assert_eq!(
        next_measure_slot(&times, hms(5, 0, 0)),
        Some(MeasureSlot { next_day: false, index: 0 })
    );
    // Asking later never gives an earlier slot.
    assert_eq!(
        next_measure_slot(&times, hms(7, 0, 0)),
        Some(MeasureSlot { next_day: false, index: 1 })
    );
}

#[test]
fn slot_inside_an_interval() {
    let times = measurement_times();
    assert_eq!(
        next_measure_slot(&times, hms(10, 30, 0)),
        Some(MeasureSlot { next_day: false, index: 4 })
    );
    assert_eq!(
        next_measure_slot(&times, hms(16, 0, 0)),
        Some(MeasureSlot { next_day: false, index: 6 })
    );
}

#[test]
fn slot_at_a_measurement_time_is_that_time() {
    let times = measurement_times();
    assert_eq!(
        next_measure_slot(&times, hms(12, 0, 0)),
        Some(MeasureSlot { next_day: false, index: 4 })
    );
    assert_eq!(
        next_measure_slot(&times, hms(0, 0, 0)),
        Some(MeasureSlot { next_day: false, index: 0 })
    );
}

#[test]
fn slot_after_the_last_time_is_tomorrow() {
    let times = measurement_times();
    assert_eq!(
        next_measure_slot(&times, hms(22, 0, 0)),
        Some(MeasureSlot { next_day: true, index: 0 })
    );
    assert_eq!(
        next_measure_slot(&times, TimeOfDay { secs: 0, nanos: 1 }),
        Some(MeasureSlot { next_day: false, index: 1 })
    );
}

#[test]
fn measure_time_same_day_in_tokyo() {
    // 2024-01-01 10:30 in Tokyo is 01:30 UTC; the next time is 12:00 in Tokyo.
    let times = measurement_times();
    assert_eq!(next_measure_time_at(&times, at(1704072600)), Ok(Some(at(1704078000))));
}

#[test]
fn measure_time_next_day_in_tokyo() {
    // 2024-01-01 22:00 in Tokyo; the next time is midnight of 2024-01-02 there.
    let times = measurement_times();
    assert_eq!(next_measure_time_at(&times, at(1704114000)), Ok(Some(at(1704121200))));
}

#[test]
fn measure_time_at_a_measurement_time_is_now() {
    let times = measurement_times();
    // 16:10 in Tokyo on 2024-01-01.
    assert_eq!(next_measure_time_at(&times, at(1704093000)), Ok(Some(at(1704093000))));
    // Midnight in Tokyo at the start of 2024-01-01.
    assert_eq!(next_measure_time_at(&times, at(1704034800)), Ok(Some(at(1704034800))));
}

#[test]
fn measure_time_single_passed_time_is_tomorrow() {
    // 2024-01-01 10:00 in Tokyo with only 09:00: 09:00 on 2024-01-02 there.
    let times = [hms(9, 0, 0)];
    assert_eq!(next_measure_time_at(&times, at(1704070800)), Ok(Some(at(1704153600))));
}

#[test]
fn measure_time_outside_chrono_range_is_an_error() {
    let times = measurement_times();
    assert_eq!(next_measure_time_at(&times, at(i64::MAX)), Err(OutOfRange));
}

#[test]
fn measure_time_none_without_times() {
    assert_eq!(next_measure_time_at(&[], at(1704072600)), Ok(None));
    assert_eq!(next_measure_time(&[]), Ok(None));
}

#[test]
fn measure_time_from_the_clock_is_ahead() {
    let times = measurement_times();
    let before = std::time::SystemTime::now()
        .duration_since(std::time::UNIX_EPOCH)
        .unwrap()
        .as_secs() as i64;
    let next = next_measure_time(&times).unwrap().unwrap();
    assert!(next.secs >= before - 1);
    assert!(next.secs <= before + 3 * 3600 + 1);
}

#[test]
fn deep_sleep_until_three_minutes_before() {
    assert_eq!(deep_sleep_span(at(1000), at(2000)), Some((2000 - 180 - 1000) as i128 * 1_000_000_000));
    assert_eq!(deep_sleep_span(at(1000), at(1180)), None);
    assert_eq!(deep_sleep_span(at(1000), at(1100)), None);
}

#[test]
fn remaining_wait_until_due() {
    assert_eq!(remaining_wait(at(1000), at(1100)), Some(100_000_000_000));
    assert_eq!(
        remaining_wait(Instant { secs: 1000, nanos: 500 }, at(1001)),
        Some(999_999_500)
    );
    assert_eq!(remaining_wait(at(1100), at(1100)), None);
    assert_eq!(remaining_wait(at(1200), at(1100)), None);
}

#[test]
fn later_readings_never_give_earlier_measurements() {
    let times = measurement_times();
    let mut last = i64::MIN;
    // Every 17 minutes across two days in Tokyo from 2024-01-01 00:00 there.
    for k in 0..(2 * 24 * 60 / 17) {
        let now = at(1704034800 + 17 * 60 * k);
        let next = next_measure_time_at(&times, now).unwrap().unwrap();
        assert!(next.secs >= now.secs);
        assert!(next.secs < now.secs + 86400);
        assert!(next.secs >= last);
        last = next.secs;
    }
}

#[test]
fn measure_time_far_in_chrono_range() {
    // 200000-01-01 01:00 UTC is 10:00 in Tokyo; the next time there is 12:00.
    let secs: i64 = 6_249_223_184_400;
    let times = measurement_times();
    let next = next_measure_time_at(&times, at(secs)).unwrap().unwrap();
    assert_eq!(next, at(secs + 2 * 3600));
    // 09:00 in Tokyo that day is a measurement time itself.
    assert_eq!(next_measure_time_at(&times, at(secs - 3600)), Ok(Some(at(secs - 3600))));
}
