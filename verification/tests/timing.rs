use tokio_playground::clock::{
    checked_deadline, utc_from_epoch, utc_now, ClockError, TimeSpan, UtcTime, MAX_UTC_SECS,
    MIN_UTC_SECS,
};
use tokio_playground::waiting::{
    sleep_before_wake, PollFailure, WaitForIt, WaitForItPoll, WaitInAnotherThread, WaitStep,
};

fn at(secs: i64, nanos: u32) -> UtcTime {
    UtcTime { secs, nanos }
}

#[test]
fn is_before_compares_seconds_then_nanos() {
    assert!(at(1, 5).is_before(&at(2, 0)));
    assert!(at(1, 5).is_before(&at(1, 6)));
    assert!(!at(1, 6).is_before(&at(1, 6)));
    assert!(!at(2, 0).is_before(&at(1, 999_999_999)));
    assert!(at(-1, 999_999_999).is_before(&at(0, 0)));
}

#[test]
fn plus_carries_nanoseconds() {
    let t = at(10, 600_000_000).plus(TimeSpan { secs: 2, nanos: 500_000_000 });
    assert_eq!(t, at(13, 100_000_000));
    let t = at(10, 0).plus(TimeSpan::seconds(-3));
    assert_eq!(t, at(7, 0));
    assert_eq!(TimeSpan::seconds(4), TimeSpan { secs: 4, nanos: 0 });
}

#[test]
fn clock_reads_a_plausible_time() {
    let now = utc_now().expect("the system clock reads as a chrono time");
    assert!(now.nanos < 1_000_000_000);
    assert!(now.secs > 1_500_000_000);
}

#[test]
fn wait_for_it_counts_polls_until_deadline() {
    let mut w = WaitForIt::with_deadline("done".to_string(), at(100, 0));
    match w.poll_at(at(50, 0)) {
        WaitForItPoll::NotReady { wake_now } => assert!(!wake_now),
        other => panic!("unexpected {:?}", other),
    }
    match w.poll_at(at(100, 0)) {
        WaitForItPoll::NotReady { wake_now } => assert!(!wake_now),
        other => panic!("unexpected {:?}", other),
    }
    match w.poll_at(at(100, 1)) {
        WaitForItPoll::Ready(s) => assert_eq!(s, "done after 2 polls!"),
        other => panic!("unexpected {:?}", other),
    }
}

#[test]
fn wait_for_it_wakes_for_done_message() {
    let mut w = WaitForIt::with_deadline("I'm done:".to_string(), at(100, 0));
    match w.poll_at(at(1, 0)) {
        WaitForItPoll::NotReady { wake_now } => assert!(wake_now),
        other => panic!("unexpected {:?}", other),
    }
}

#[test]
fn wait_for_it_past_deadline_is_ready_at_once() {
    let mut w = WaitForIt::new("late".to_string(), TimeSpan::seconds(-5)).unwrap();
    match w.poll().unwrap() {
        WaitForItPoll::Ready(s) => assert_eq!(s, "late after 0 polls!"),
        other => panic!("unexpected {:?}", other),
    }
}

#[test]
fn wait_for_it_far_deadline_is_pending() {
    let mut w = WaitForIt::new("later".to_string(), TimeSpan::seconds(3600)).unwrap();
    match w.poll().unwrap() {
        WaitForItPoll::NotReady { wake_now } => assert!(!wake_now),
        other => panic!("unexpected {:?}", other),
    }
}

#[test]
fn wait_in_another_thread_starts_waiter_once() {
    let mut w = WaitInAnotherThread::with_deadline(at(10, 0), "m".to_string());
    assert_eq!(w.poll_at(at(5, 0)), WaitStep::StartWaiter);
    assert_eq!(w.poll_at(at(6, 0)), WaitStep::Park);
    assert_eq!(w.poll_at(at(10, 0)), WaitStep::Complete);
    assert_eq!(w.msg(), "m");
    assert_eq!(w.end_time(), at(10, 0));
}

#[test]
fn wait_in_another_thread_with_clock() {
    let mut w = WaitInAnotherThread::new(TimeSpan::seconds(3600), "x".to_string()).unwrap();
    assert_eq!(w.poll(), Ok(WaitStep::StartWaiter));
    assert_eq!(w.poll(), Ok(WaitStep::Park));
    let mut done = WaitInAnotherThread::new(TimeSpan::seconds(-1), "y".to_string()).unwrap();
    assert_eq!(done.poll(), Ok(WaitStep::Complete));
}

#[test]
fn sleep_before_wake_cases() {
    assert_eq!(sleep_before_wake(at(10, 0), at(7, 500)), Some(3));
    assert_eq!(sleep_before_wake(at(10, 900), at(10, 100)), Some(0));
    assert_eq!(sleep_before_wake(at(10, 0), at(10, 0)), None);
    assert_eq!(sleep_before_wake(at(10, 0), at(12, 0)), None);
}

#[test]
fn span_from_signed_parts_borrows_a_second() {
    assert_eq!(TimeSpan::from_signed_parts(-1, -500_000_000), TimeSpan { secs: -2, nanos: 500_000_000 });
    assert_eq!(TimeSpan::from_signed_parts(3, 250), TimeSpan { secs: 3, nanos: 250 });
    assert_eq!(TimeSpan::from_signed_parts(0, 0), TimeSpan { secs: 0, nanos: 0 });
}

#[test]
fn deadlines_beyond_chrono_dates_are_refused() {
    assert_eq!(checked_deadline(at(10, 5)), Ok(at(10, 5)));
    assert_eq!(checked_deadline(at(i64::MAX, 0)), Err(ClockError::DeadlineOutOfRange));
    assert!(matches!(
        WaitForIt::new("far".to_string(), TimeSpan::seconds(9_000_000_000_000_000_000)),
        Err(ClockError::DeadlineOutOfRange)
    ));
    assert!(matches!(
        WaitInAnotherThread::new(TimeSpan::seconds(-9_000_000_000_000_000_000), "m".to_string()),
        Err(ClockError::DeadlineOutOfRange)
    ));
}

#[test]
fn chrono_range_bounds_match_chrono() {
    assert_eq!(checked_deadline(at(MAX_UTC_SECS, 999_999_999)), Ok(at(MAX_UTC_SECS, 999_999_999)));
    assert_eq!(checked_deadline(at(MAX_UTC_SECS + 1, 0)), Err(ClockError::DeadlineOutOfRange));
    assert_eq!(checked_deadline(at(MIN_UTC_SECS, 0)), Ok(at(MIN_UTC_SECS, 0)));
    assert_eq!(checked_deadline(at(MIN_UTC_SECS - 1, 999_999_999)), Err(ClockError::DeadlineOutOfRange));
    assert_eq!(MIN_UTC_SECS, -8_334_601_228_800);
    assert_eq!(MAX_UTC_SECS, 8_210_266_876_799);
}

#[test]
fn leap_second_fractions() {
    assert_eq!(checked_deadline(at(59, 1_500_000_000)), Ok(at(59, 1_500_000_000)));
    assert_eq!(checked_deadline(at(58, 1_500_000_000)), Err(ClockError::DeadlineOutOfRange));
    assert_eq!(checked_deadline(at(-1, 1_000_000_000)), Ok(at(-1, 1_000_000_000)));
    assert_eq!(checked_deadline(at(59, 2_000_000_000)), Err(ClockError::DeadlineOutOfRange));
}

#[test]
fn epoch_readings() {
    assert_eq!(utc_from_epoch(1_600_000_000, 5), Ok(at(1_600_000_000, 5)));
    assert_eq!(utc_from_epoch(u64::MAX, 0), Err(ClockError::OutOfRange));
    assert_eq!(utc_from_epoch(MAX_UTC_SECS as u64 + 1, 0), Err(ClockError::OutOfRange));
}

#[test]
fn new_at_sets_deadline_or_refuses() {
    let w = WaitForIt::new_at("m".to_string(), TimeSpan { secs: 2, nanos: 600_000_000 }, at(10, 500_000_000))
        .unwrap();
    assert_eq!(w.until(), at(13, 100_000_000));
    assert_eq!(w.polls(), 0);
    assert!(matches!(
        WaitForIt::new_at("m".to_string(), TimeSpan::seconds(MAX_UTC_SECS), at(10, 0)),
        Err(ClockError::DeadlineOutOfRange)
    ));
    let t = WaitInAnotherThread::new_at(TimeSpan::seconds(5), "x".to_string(), at(1, 0)).unwrap();
    assert_eq!(t.end_time(), at(6, 0));
    assert!(matches!(
        WaitInAnotherThread::new_at(TimeSpan::seconds(MIN_UTC_SECS), "x".to_string(), at(-1, 0)),
        Err(ClockError::DeadlineOutOfRange)
    ));
}

#[test]
fn poll_failure_variants_compare() {
    assert_ne!(PollFailure::CountOverflow, PollFailure::Clock(ClockError::BeforeEpoch));
}
