use circuit_breaker::{CircuitBreaker, CircuitBreakerError, CircuitState, Duration, ThresholdBreaker};

#[derive(Debug, PartialEq)]
enum TestError {
    ExpectedFailure,
}

fn success(parameter: &str) -> Result<String, TestError> {
    Ok(String::from(parameter))
}

fn fail(should_fail: bool) -> Result<&'static str, TestError> {
    match should_fail {
        true => Err(TestError::ExpectedFailure),
        false => Ok("Don't fail"),
    }
}

fn std_duration(d: Duration) -> std::time::Duration {
    std::time::Duration::new(d.as_secs(), d.subsec_nanos())
}

/// Waits until at least `d` has passed, by the monotonic clock.
fn sleep(d: std::time::Duration) {
    let start = std::time::Instant::now();
    while start.elapsed() <= d {}
}

#[test]
fn successful_execute() {
    let mut cb = ThresholdBreaker::new("successful_execute", None, None);
    match cb.call(|| success("Hello")) {
        Ok(msg) => {
            assert_eq!("Hello", msg);
            assert_eq!(CircuitState::Close, cb.status());
        }
        Err(err) => panic!("Unexpected failure: {:?}!", err),
    }
    match cb.call(|| success("World")) {
        Ok(msg) => assert_eq!("World", msg),
        Err(err) => panic!("Unexpected failure: {:?}!", err),
    }
}

#[test]
fn unsuccessful_execute() {
    let mut cb = ThresholdBreaker::new("unsuccessful_execute", None, None);
    match cb.call(|| fail(true)) {
        Ok(_) => panic!("Unexpected successful execution!"),
        Err(error) => println!("Expected error: {:?}", error),
    }
}

#[test]
fn recover_execute() {
    let mut cb = ThresholdBreaker::new("recover_execute", Some(1), Some(Duration::new(1, 0)));
    // Everything is fine
    match cb.call(|| fail(false)) {
        Ok(_) => assert_eq!(CircuitState::Close, cb.status()),
        Err(err) => panic!("Unexpected error: {:?}", err),
    }
    // One failure is no failure!
    match cb.call(|| fail(true)) {
        Ok(_) => panic!("Unexpected success!"),
        Err(_) => assert_eq!(CircuitState::Close, cb.status()),
    }
    // Now the threshold steps in!
    match cb.call(|| fail(true)) {
        Ok(_) => panic!("Unexpected success!"),
        Err(_) => assert_eq!(CircuitState::Open, cb.status()),
    }
    // Still within the timeout period! The successful function is not even called.
    for _i in 1..10 {
        match cb.call(|| fail(false)) {
            Ok(_) => panic!("Unexpected success!"),
            Err(_) => assert_eq!(CircuitState::Open, cb.status()),
        }
    }
    sleep(std_duration(cb.timeout()));
    match cb.call(|| fail(false)) {
        Ok(_) => assert_eq!(CircuitState::Close, cb.status()),
        Err(err) => panic!("Unexpected error: {:?}", err),
    }
}

#[test]
fn one_second_scenario_reports_each_kind() {
    let mut cb = ThresholdBreaker::new("scenario", Some(1), Some(Duration::new(1, 0)));
    assert!(matches!(cb.call(|| fail(false)), Ok("Don't fail")));
    assert_eq!(CircuitState::Close, cb.status());
    assert!(matches!(cb.call(|| fail(true)), Err(CircuitBreakerError::Failed(TestError::ExpectedFailure))));
    assert_eq!(CircuitState::Close, cb.status());
    match cb.call(|| fail(true)) {
        Err(CircuitBreakerError::Tripped(name, TestError::ExpectedFailure)) => assert_eq!("scenario", name),
        other => panic!("expected a trip, got {:?}", other),
    }
    assert_eq!(CircuitState::Open, cb.status());
    for _i in 0..9 {
        match cb.call(|| fail(false)) {
            Err(CircuitBreakerError::StaysOpen(name)) => assert_eq!("scenario", name),
            other => panic!("expected the breaker to stay open, got {:?}", other),
        }
        assert_eq!(CircuitState::Open, cb.status());
    }
    sleep(std::time::Duration::new(1, 0));
    assert!(matches!(cb.call(|| fail(false)), Ok("Don't fail")));
    assert_eq!(CircuitState::Close, cb.status());
    assert_eq!(0, cb.failure_count());
    assert_eq!(None, cb.time_of_tripping());
}

#[test]
fn defaults_are_five_failures_and_five_seconds() {
    let mut cb = ThresholdBreaker::new("defaults", None, None);
    assert_eq!(5_000_000_000, cb.timeout().as_nanos());
    for i in 1..=5 {
        assert!(matches!(cb.call(|| fail(true)), Err(CircuitBreakerError::Failed(_))));
        assert_eq!(i, cb.failure_count());
        assert_eq!(CircuitState::Close, cb.status());
    }
    assert!(matches!(cb.call(|| fail(true)), Err(CircuitBreakerError::Tripped(_, _))));
    assert_eq!(CircuitState::Open, cb.status());
}

#[test]
fn failures_within_threshold_stay_closed_and_success_resets() {
    let mut cb = ThresholdBreaker::new("within", Some(3), None);
    let outcomes = [true, true, false, true, true, true, false, true];
    for should_fail in outcomes {
        let r = cb.call(|| fail(should_fail));
        if should_fail {
            assert!(matches!(r, Err(CircuitBreakerError::Failed(TestError::ExpectedFailure))));
        } else {
            assert!(r.is_ok());
            assert_eq!(0, cb.failure_count());
        }
        assert_eq!(CircuitState::Close, cb.status());
    }
    assert_eq!(1, cb.failure_count());
}

#[test]
fn failure_past_threshold_trips() {
    let mut cb = ThresholdBreaker::new("past", Some(2), None);
    assert!(matches!(cb.call(|| fail(true)), Err(CircuitBreakerError::Failed(_))));
    assert!(matches!(cb.call(|| fail(true)), Err(CircuitBreakerError::Failed(_))));
    assert_eq!(None, cb.time_of_tripping());
    match cb.call(|| fail(true)) {
        Err(CircuitBreakerError::Tripped(name, TestError::ExpectedFailure)) => assert_eq!("past", name),
        other => panic!("expected a trip, got {:?}", other),
    }
    assert_eq!(CircuitState::Open, cb.status());
    assert!(cb.time_of_tripping().is_some());
}

#[test]
fn zero_threshold_trips_on_first_failure() {
    let mut cb = ThresholdBreaker::new("zero", Some(0), None);
    assert!(matches!(cb.call(|| fail(true)), Err(CircuitBreakerError::Tripped(_, _))));
    assert_eq!(CircuitState::Open, cb.status());
}

#[test]
fn trip_time_reads_the_wall_clock() {
    let before = std::time::UNIX_EPOCH.elapsed().unwrap().as_nanos();
    let mut cb = ThresholdBreaker::new("clock", Some(0), None);
    let _ = cb.call(|| fail(true));
    let after = std::time::UNIX_EPOCH.elapsed().unwrap().as_nanos();
    let tripped = cb.time_of_tripping().unwrap();
    assert!(before <= tripped && tripped <= after);
}

fn tripped_breaker(name: &str, timeout: Duration) -> (ThresholdBreaker, u128) {
    let mut cb = ThresholdBreaker::new(name, Some(0), Some(timeout));
    let _ = cb.call(|| fail(true));
    let t = cb.time_of_tripping().unwrap();
    (cb, t)
}

#[test]
fn open_within_timeout_never_calls_the_function() {
    let (mut cb, t) = tripped_breaker("blackout", Duration::new(2, 0));
    let mut calls = 0;
    for now in [t, t + 1, t + 1_000_000_000, t + 2_000_000_000] {
        let r = cb.handle_open(now, || {
            calls += 1;
            fail(false)
        });
        match r {
            Err(CircuitBreakerError::StaysOpen(name)) => assert_eq!("blackout", name),
            other => panic!("expected the breaker to stay open, got {:?}", other),
        }
        assert_eq!(CircuitState::Open, cb.status());
        assert_eq!(Some(t), cb.time_of_tripping());
    }
    for _i in 0..5 {
        assert!(matches!(
            cb.call(|| {
                calls += 1;
                fail(false)
            }),
            Err(CircuitBreakerError::StaysOpen(_))
        ));
    }
    assert_eq!(0, calls);
}

#[test]
fn open_past_timeout_calls_the_function_once() {
    let (mut cb, t) = tripped_breaker("probe", Duration::new(2, 0));
    let mut calls = 0;
    let r = cb.handle_open(t + 2_000_000_001, || {
        calls += 1;
        fail(false)
    });
    assert_eq!(1, calls);
    assert!(matches!(r, Ok("Don't fail")));
}

#[test]
fn successful_probe_closes() {
    let (mut cb, t) = tripped_breaker("closes", Duration::new(0, 10));
    assert!(matches!(cb.handle_open(t + 11, || fail(false)), Ok(_)));
    assert_eq!(CircuitState::Close, cb.status());
    assert_eq!(0, cb.failure_count());
    assert_eq!(None, cb.time_of_tripping());
}

#[test]
fn failing_probe_reopens_with_a_later_trip_time() {
    let (mut cb, t) = tripped_breaker("reopens", Duration::new(0, 10));
    match cb.handle_open(t + 11, || fail(true)) {
        Err(CircuitBreakerError::Tripped(name, TestError::ExpectedFailure)) => assert_eq!("reopens", name),
        other => panic!("expected a trip, got {:?}", other),
    }
    assert_eq!(CircuitState::Open, cb.status());
    let t2 = cb.time_of_tripping().unwrap();
    assert!(t2 >= t);
    assert!(matches!(cb.handle_open(t2 + 10, || fail(false)), Err(CircuitBreakerError::StaysOpen(_))));
    assert_eq!(Some(t2), cb.time_of_tripping());
}

#[test]
fn zero_timeout_probes_after_any_later_instant() {
    let (mut cb, t) = tripped_breaker("instant", Duration::new(0, 0));
    assert!(matches!(cb.handle_open(t, || fail(false)), Err(CircuitBreakerError::StaysOpen(_))));
    assert!(matches!(cb.handle_open(t + 1, || fail(false)), Ok(_)));
}

#[test]
fn repeated_successes_change_nothing() {
    let mut cb = ThresholdBreaker::new("steady", Some(2), None);
    for i in 0..20 {
        assert_eq!(Ok(i), cb.call(|| Ok::<u32, TestError>(i)).map_err(|_| ()));
        assert_eq!(CircuitState::Close, cb.status());
        assert_eq!(0, cb.failure_count());
        assert_eq!(None, cb.time_of_tripping());
    }
}

#[test]
fn duration_counts_nanoseconds() {
    let d = Duration::new(3, 250);
    assert_eq!(3_000_000_250, d.as_nanos());
    assert_eq!(3, d.as_secs());
    assert_eq!(250, d.subsec_nanos());
    let carried = Duration::new(1, 2_500_000_000);
    assert_eq!(3_500_000_000, carried.as_nanos());
    assert_eq!(3, carried.as_secs());
    assert_eq!(500_000_000, carried.subsec_nanos());
    let largest = Duration::new(u64::MAX, 999_999_999);
    assert_eq!(u64::MAX, largest.as_secs());
    assert_eq!(999_999_999, largest.subsec_nanos());
}
