use vstd::prelude::*;

use crate::error::CircuitBreakerError;
use crate::state::CircuitState;
use crate::time::Duration;
use crate::CircuitBreaker;

verus! {

/// Failures tolerated in a row when `ThresholdBreaker::new` is given no threshold.
pub const DEFAULT_THRESHOLD: usize = 5;

/// Seconds a tripped breaker stays open when `ThresholdBreaker::new` is given no timeout.
pub const DEFAULT_TIMEOUT_SECS: u64 = 5;

/// A breaker seen as mathematical values. Times are nanoseconds; a point in time
/// is counted from the Unix epoch.
pub struct BreakerView {
    pub name: Seq<char>,
    pub status: CircuitState,
    pub failure_count: nat,
    pub threshold: nat,
    pub timeout: nat,
    pub time_of_tripping: Option<nat>,
}

impl BreakerView {
    /// A trip time is recorded exactly while the breaker is open, and the failure
    /// count never exceeds the threshold.
    pub open spec fn wf(self) -> bool {
        &&& (self.status == CircuitState::Open <==> self.time_of_tripping is Some)
        &&& self.failure_count <= self.threshold
    }

    /// Closed again, with no failures counted and no trip time.
    pub open spec fn reset(self) -> BreakerView {
        BreakerView {
            status: CircuitState::Close,
            failure_count: 0,
            time_of_tripping: None,
            ..self
        }
    }

    /// One more failure counted.
    pub open spec fn count_failure(self) -> BreakerView {
        BreakerView { failure_count: self.failure_count + 1, ..self }
    }

    /// Open, tripped at time `at`.
    pub open spec fn trip(self, at: nat) -> BreakerView {
        BreakerView { status: CircuitState::Open, time_of_tripping: Some(at), ..self }
    }

    /// At time `now`, the timeout since the trip has strictly passed.
    pub open spec fn timed_out(self, now: nat) -> bool {
        match self.time_of_tripping {
            Some(t) => now > t + self.timeout,
            None => false,
        }
    }
}

/// `r` is the `Failed` error carrying `e`.
pub open spec fn is_failed<R, E>(r: Result<R, CircuitBreakerError<E>>, e: E) -> bool {
    r == Err::<R, CircuitBreakerError<E>>(CircuitBreakerError::Failed(e))
}

/// `r` is the `Tripped` error carrying the breaker name `name` and `e`.
pub open spec fn is_tripped<R, E>(r: Result<R, CircuitBreakerError<E>>, name: Seq<char>, e: E) -> bool {
    match r {
        Err(CircuitBreakerError::Tripped(n, x)) => n@ == name && x == e,
        _ => false,
    }
}

/// `r` is the `StaysOpen` error carrying the breaker name `name`.
pub open spec fn is_stays_open<R, E>(r: Result<R, CircuitBreakerError<E>>, name: Seq<char>) -> bool {
    match r {
        Err(CircuitBreakerError::StaysOpen(n)) => n@ == name,
        _ => false,
    }
}

/// A call on a closed breaker `pre` whose wrapped function returned `out` leaves the
/// breaker as `post` and returns `r`: a success resets the breaker; a failure within
/// the threshold is counted; the failure past it trips the breaker.
pub open spec fn closed_call<R, E>(
    pre: BreakerView,
    out: Result<R, E>,
    post: BreakerView,
    r: Result<R, CircuitBreakerError<E>>,
) -> bool {
    match out {
        Ok(v) => post == pre.reset() && r == Ok::<R, CircuitBreakerError<E>>(v),
        Err(e) => if pre.failure_count < pre.threshold {
            post == pre.count_failure() && is_failed(r, e)
        } else {
            (exists|t: nat| post == pre.trip(t)) && is_tripped(r, pre.name, e)
        },
    }
}

/// A probe on breaker `pre` whose wrapped function returned `out` leaves the breaker
/// as `post` and returns `r`: a success closes the breaker, a failure trips it again.
pub open spec fn probe_call<R, E>(
    pre: BreakerView,
    out: Result<R, E>,
    post: BreakerView,
    r: Result<R, CircuitBreakerError<E>>,
) -> bool {
    match out {
        Ok(v) => post == pre.reset() && r == Ok::<R, CircuitBreakerError<E>>(v),
        Err(e) => (exists|t: nat| post == pre.trip(t)) && is_tripped(r, pre.name, e),
    }
}

/// A call on an open breaker `pre` at time `now`, with wrapped function `f`, leaves the
/// breaker as `post` and returns `r`: once the timeout has passed `f` runs as a probe;
/// before that the call is refused and nothing changes.
pub open spec fn open_call<F: FnOnce() -> Result<R, E>, R, E>(
    pre: BreakerView,
    now: nat,
    f: F,
    post: BreakerView,
    r: Result<R, CircuitBreakerError<E>>,
) -> bool {
    if pre.timed_out(now) {
        exists|out: Result<R, E>| f.ensures((), out) && probe_call(pre, out, post, r)
    } else {
        post == pre && is_stays_open(r, pre.name)
    }
}

/// A call with wrapped function `f` on breaker `pre` leaves the breaker as `post` and
/// returns `r`, where `now` is the clock reading that decides an open breaker's case.
pub open spec fn call_at<F: FnOnce() -> Result<R, E>, R, E>(
    pre: BreakerView,
    now: nat,
    f: F,
    post: BreakerView,
    r: Result<R, CircuitBreakerError<E>>,
) -> bool {
    match pre.status {
        CircuitState::Close => exists|out: Result<R, E>|
            f.ensures((), out) && closed_call(pre, out, post, r),
        CircuitState::HalfOpen => exists|out: Result<R, E>|
            f.ensures((), out) && probe_call(pre, out, post, r),
        CircuitState::Open => open_call(pre, now, f, post, r),
    }
}

/// Relies on std::time::SystemTime::elapsed, applied to UNIX_EPOCH: the wall-clock
/// time since the epoch in nanoseconds, or None where the clock reads earlier.
#[verifier::external_body]
fn clock_since_epoch() -> (r: Option<u128>) {
    match std::time::UNIX_EPOCH.elapsed() {
        Ok(d) => Some(d.as_nanos()),
        Err(_) => None,
    }
}

/// The current time in nanoseconds since the Unix epoch; a clock set before the
/// epoch reads as the epoch itself.
fn read_clock() -> u128 {
    match clock_since_epoch() {
        Some(t) => t,
        None => 0,
    }
}

/// A circuit breaker that trips after more than `threshold` failures in a row, and
/// lets a probe through once `timeout` has passed since it tripped.
pub struct ThresholdBreaker {
    /// The name of this breaker, carried in the errors it reports.
    name: String,
    /// Failures in a row since the last success or reset.
    failure_count: usize,
    /// The current state.
    status: CircuitState,
    /// Failures in a row that are tolerated.
    threshold: usize,
    /// How long the breaker stays open before a probe is let through.
    timeout: Duration,
    /// When the breaker tripped, in nanoseconds since the Unix epoch.
    time_of_tripping: Option<u128>,
}

impl View for ThresholdBreaker {
    type V = BreakerView;

    closed spec fn view(&self) -> BreakerView {
        BreakerView {
            name: self.name@,
            status: self.status,
            failure_count: self.failure_count as nat,
            threshold: self.threshold as nat,
            timeout: self.timeout@,
            time_of_tripping: match self.time_of_tripping {
                Some(t) => Some(t as nat),
                None => None,
            },
        }
    }
}

impl<F, R, E> CircuitBreaker<F, R, E> for ThresholdBreaker where F: FnOnce() -> Result<R, E> {
    /// Dispatches on the state; an open breaker reads the clock to decide whether the
    /// timeout has passed.
    fn call(&mut self, f: F) -> (r: Result<R, CircuitBreakerError<E>>)
        ensures
            exists|now: nat| call_at(old(self)@, now, f, final(self)@, r),
            old(self)@.wf() ==> final(self)@.wf(),
    {
        match self.status {
            CircuitState::Open => {
                let now = read_clock();
                let r = self.handle_open(now, f);
                assert(call_at(old(self)@, now as nat, f, self@, r));
                r
            },
            CircuitState::Close => {
                let r = self.handle_close(f);
                assert(call_at(old(self)@, 0, f, self@, r));
                r
            },
            CircuitState::HalfOpen => {
                let r = self.handle_half_open(f);
                assert(call_at(old(self)@, 0, f, self@, r));
                r
            },
        }
    }
}

impl ThresholdBreaker {
    /// A closed breaker named `name`, tolerating `threshold` failures in a row
    /// (5 when not given) and staying open for `timeout` (5 seconds when not given).
    pub fn new(name: &str, threshold: Option<usize>, timeout: Option<Duration>) -> (r:
        ThresholdBreaker)
        ensures
            r@.name == name@,
            r@.status == CircuitState::Close,
            r@.failure_count == 0,
            r@.threshold == match threshold {
                Some(t) => t as nat,
                None => DEFAULT_THRESHOLD as nat,
            },
            r@.timeout == match timeout {
                Some(d) => d@,
                None => (DEFAULT_TIMEOUT_SECS * 1_000_000_000) as nat,
            },
            r@.time_of_tripping is None,
            r@.wf(),
    {
        ThresholdBreaker {
            name: name.to_owned(),
            failure_count: 0,
            status: CircuitState::Close,
            threshold: match threshold {
                Some(t) => t,
                None => DEFAULT_THRESHOLD,
            },
            timeout: match timeout {
                Some(d) => d,
                None => Duration::new(DEFAULT_TIMEOUT_SECS, 0),
            },
            time_of_tripping: None,
        }
    }

    /// The current state.
    pub fn status(&self) -> (r: CircuitState)
        ensures
            r == self@.status,
    {
        self.status
    }

    /// Failures in a row since the last success or reset. While the breaker is not
    /// closed this is the count it had when it tripped.
    pub fn failure_count(&self) -> (r: usize)
        ensures
            r == self@.failure_count,
    {
        self.failure_count
    }

    /// How long the breaker stays open before a probe is let through.
    pub fn timeout(&self) -> (r: Duration)
        ensures
            r@ == self@.timeout,
    {
        self.timeout
    }

    /// When the breaker tripped, in nanoseconds since the Unix epoch, while it is open.
    pub fn time_of_tripping(&self) -> (r: Option<u128>)
        ensures
            r is Some <==> self@.time_of_tripping is Some,
            r is Some ==> self@.time_of_tripping == Some(r->Some_0 as nat),
    {
        self.time_of_tripping
    }

    /// Handles a call while open, at time `now` (nanoseconds since the Unix epoch).
    /// Once the timeout has strictly passed since the trip, the breaker goes half-open
    /// and `f` runs as a probe; before that `f` is not called and `StaysOpen` is returned.
    pub fn handle_open<F, R, E>(&mut self, now: u128, f: F) -> (r: Result<R, CircuitBreakerError<E>>)
        where
            F: FnOnce() -> Result<R, E>,
        requires
            f.requires(()),
        ensures
            open_call(old(self)@, now as nat, f, final(self)@, r),
            old(self)@.wf() ==> final(self)@.wf(),
    {
        let timed_out = match self.time_of_tripping {
            Some(tripped) => now > tripped && now - tripped > self.timeout.as_nanos(),
            None => false,
        };
        if timed_out {
            self.status = CircuitState::HalfOpen;
            let ghost probing = self@;
            let r = self.handle_half_open(f);
            proof {
                let out = choose|out: Result<R, E>|
                    f.ensures((), out) && probe_call(probing, out, self@, r);
                assert(probing.reset() == old(self)@.reset());
                assert(forall|t: nat| probing.trip(t) == old(self)@.trip(t));
                assert(probe_call(old(self)@, out, self@, r));
            }
            r
        } else {
            Err(CircuitBreakerError::StaysOpen(self.name.clone()))
        }
    }

    /// Handles a call while closed: runs `f`, resets on success, counts a failure, and
    /// trips once more than `threshold` failures came in a row.
    fn handle_close<F, R, E>(&mut self, f: F) -> (r: Result<R, CircuitBreakerError<E>>)
        where
            F: FnOnce() -> Result<R, E>,
        requires
            f.requires(()),
        ensures
            exists|out: Result<R, E>|
                f.ensures((), out) && closed_call(old(self)@, out, final(self)@, r),
    {
        let out = f();
        let ghost outcome = out;
        let r = match out {
            Ok(result) => {
                self.reset();
                Ok(result)
            },
            Err(error) => {
                if self.failure_count < self.threshold {
                    self.failure_count = self.failure_count + 1;
                    Err(CircuitBreakerError::Failed(error))
                } else {
                    let now = read_clock();
                    self.trip(now, error)
                }
            },
        };
        assert(closed_call(old(self)@, outcome, self@, r));
        r
    }

    /// Handles a probe while half-open: runs `f`, closes on success and trips again on
    /// failure.
    fn handle_half_open<F, R, E>(&mut self, f: F) -> (r: Result<R, CircuitBreakerError<E>>)
        where
            F: FnOnce() -> Result<R, E>,
        requires
            f.requires(()),
        ensures
            exists|out: Result<R, E>|
                f.ensures((), out) && probe_call(old(self)@, out, final(self)@, r),
    {
        let out = f();
        let ghost outcome = out;
        let r = match out {
            Ok(result) => {
                self.reset();
                Ok(result)
            },
            Err(error) => {
                let now = read_clock();
                self.trip(now, error)
            },
        };
        assert(probe_call(old(self)@, outcome, self@, r));
        r
    }

    /// Closes the breaker, with no failures counted and no trip time.
    fn reset(&mut self)
        ensures
            final(self)@ == old(self)@.reset(),
    {
        self.failure_count = 0;
        self.status = CircuitState::Close;
        self.time_of_tripping = None;
    }

    /// Opens the breaker at time `now` and reports `error` as the cause.
    fn trip<R, E>(&mut self, now: u128, error: E) -> (r: Result<R, CircuitBreakerError<E>>)
        ensures
            final(self)@ == old(self)@.trip(now as nat),
            is_tripped(r, old(self)@.name, error),
    {
        self.status = CircuitState::Open;
        self.time_of_tripping = Some(now);
        Err(CircuitBreakerError::Tripped(self.name.clone(), error))
    }
}

} // verus!
