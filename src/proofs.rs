use vstd::prelude::*;

use crate::error::CircuitBreakerError;
use crate::state::CircuitState;
use crate::threshold::{
    call_at, closed_call, is_failed, is_stays_open, is_tripped, probe_call, BreakerView,
};

verus! {

/// Failures in a row after the outcomes `outs`, starting from `start` counted ones: a
/// success sets the count back to zero, a failure adds one.
pub open spec fn failures_in_a_row<R, E>(start: nat, outs: Seq<Result<R, E>>) -> nat
    decreases outs.len(),
{
    if outs.len() == 0 {
        start
    } else {
        match outs.last() {
            Ok(_) => 0,
            Err(_) => failures_in_a_row(start, outs.drop_last()) + 1,
        }
    }
}

proof fn lemma_closed_prefix<R, E>(
    states: Seq<BreakerView>,
    outs: Seq<Result<R, E>>,
    results: Seq<Result<R, CircuitBreakerError<E>>>,
    k: int,
)
    requires
        states.len() == outs.len() + 1,
        results.len() == outs.len(),
        states[0].wf(),
        states[0].status == CircuitState::Close,
        forall|i: int|
            0 <= i < outs.len() ==> #[trigger] closed_call(
                states[i],
                outs[i],
                states[i + 1],
                results[i],
            ),
        forall|i: int|
            0 < i <= outs.len() ==> #[trigger] failures_in_a_row(
                states[0].failure_count,
                outs.take(i),
            ) <= states[0].threshold,
        0 <= k <= outs.len(),
    ensures
        states[k].status == CircuitState::Close,
        states[k].wf(),
        states[k].threshold == states[0].threshold,
        states[k].failure_count == failures_in_a_row(states[0].failure_count, outs.take(k)),
    decreases k,
{
    if k == 0 {
        assert(outs.take(0) =~= Seq::<Result<R, E>>::empty());
    } else {
        lemma_closed_prefix(states, outs, results, k - 1);
        assert(outs.take(k).drop_last() =~= outs.take(k - 1));
        assert(outs.take(k).last() == outs[k - 1]);
        let j = k - 1;
        assert(closed_call(states[j], outs[j], states[j + 1], results[j]));
        assert(failures_in_a_row(states[0].failure_count, outs.take(k)) <= states[0].threshold);
    }
}

/// A closed breaker stays closed over any sequence of calls in which the failures in a
/// row never exceed its threshold: each failure is reported as `Failed` with its error,
/// each success is returned as it is and sets the failure count back to zero.
pub proof fn lemma_closed_within_threshold<R, E>(
    states: Seq<BreakerView>,
    outs: Seq<Result<R, E>>,
    results: Seq<Result<R, CircuitBreakerError<E>>>,
)
    requires
        states.len() == outs.len() + 1,
        results.len() == outs.len(),
        states[0].wf(),
        states[0].status == CircuitState::Close,
        forall|i: int|
            0 <= i < outs.len() ==> #[trigger] closed_call(
                states[i],
                outs[i],
                states[i + 1],
                results[i],
            ),
        forall|i: int|
            0 < i <= outs.len() ==> #[trigger] failures_in_a_row(
                states[0].failure_count,
                outs.take(i),
            ) <= states[0].threshold,
    ensures
        forall|i: int|
            0 <= i <= outs.len() ==> {
                &&& (#[trigger] states[i]).status == CircuitState::Close
                &&& states[i].wf()
                &&& states[i].failure_count == failures_in_a_row(
                    states[0].failure_count,
                    outs.take(i),
                )
            },
        forall|i: int|
            0 <= i < outs.len() ==> match #[trigger] outs[i] {
                Ok(v) => results[i] == Ok::<R, CircuitBreakerError<E>>(v) && states[i
                    + 1].failure_count == 0,
                Err(e) => is_failed(results[i], e),
            },
{
    assert forall|i: int| 0 <= i <= outs.len() implies {
        &&& (#[trigger] states[i]).status == CircuitState::Close
        &&& states[i].wf()
        &&& states[i].failure_count == failures_in_a_row(states[0].failure_count, outs.take(i))
    } by {
        lemma_closed_prefix(states, outs, results, i);
    }
    assert forall|i: int| 0 <= i < outs.len() implies match #[trigger] outs[i] {
        Ok(v) => results[i] == Ok::<R, CircuitBreakerError<E>>(v) && states[i + 1].failure_count
            == 0,
        Err(e) => is_failed(results[i], e),
    } by {
        lemma_closed_prefix(states, outs, results, i);
        lemma_closed_prefix(states, outs, results, i + 1);
        assert(outs.take(i + 1).drop_last() =~= outs.take(i));
        assert(outs.take(i + 1).last() == outs[i]);
        assert(closed_call(states[i], outs[i], states[i + 1], results[i]));
    }
}

/// A closed breaker that has already counted `threshold` failures in a row trips on the
/// next failure: it opens, records a trip time, and reports `Tripped` with its name and
/// the failure's error.
pub proof fn lemma_trips_past_threshold<R, E>(
    pre: BreakerView,
    e: E,
    post: BreakerView,
    r: Result<R, CircuitBreakerError<E>>,
)
    requires
        pre.wf(),
        pre.status == CircuitState::Close,
        pre.failure_count == pre.threshold,
        closed_call(pre, Err::<R, E>(e), post, r),
    ensures
        post.status == CircuitState::Open,
        post.time_of_tripping is Some,
        post.wf(),
        is_tripped(r, pre.name, e),
{
}

proof fn lemma_open_prefix<F: FnOnce() -> Result<R, E>, R, E>(
    states: Seq<BreakerView>,
    nows: Seq<nat>,
    fs: Seq<F>,
    results: Seq<Result<R, CircuitBreakerError<E>>>,
    k: int,
)
    requires
        states.len() == nows.len() + 1,
        fs.len() == nows.len(),
        results.len() == nows.len(),
        states[0].wf(),
        states[0].status == CircuitState::Open,
        forall|i: int|
            0 <= i < nows.len() ==> #[trigger] nows[i] <= states[0].time_of_tripping->Some_0
                + states[0].timeout,
        forall|i: int|
            0 <= i < nows.len() ==> #[trigger] call_at(
                states[i],
                nows[i],
                fs[i],
                states[i + 1],
                results[i],
            ),
        0 <= k <= nows.len(),
    ensures
        states[k] == states[0],
    decreases k,
{
    if k > 0 {
        lemma_open_prefix(states, nows, fs, results, k - 1);
        assert(nows[k - 1] <= states[0].time_of_tripping->Some_0 + states[0].timeout);
        let j = k - 1;
        assert(call_at(states[j], nows[j], fs[j], states[j + 1], results[j]));
    }
}

/// While the timeout since the trip has not strictly passed, every call on an open
/// breaker is refused with `StaysOpen` and its name, and leaves the breaker as it was.
pub proof fn lemma_stays_open_within_timeout<F: FnOnce() -> Result<R, E>, R, E>(
    states: Seq<BreakerView>,
    nows: Seq<nat>,
    fs: Seq<F>,
    results: Seq<Result<R, CircuitBreakerError<E>>>,
)
    requires
        states.len() == nows.len() + 1,
        fs.len() == nows.len(),
        results.len() == nows.len(),
        states[0].wf(),
        states[0].status == CircuitState::Open,
        forall|i: int|
            0 <= i < nows.len() ==> #[trigger] nows[i] <= states[0].time_of_tripping->Some_0
                + states[0].timeout,
        forall|i: int|
            0 <= i < nows.len() ==> #[trigger] call_at(
                states[i],
                nows[i],
                fs[i],
                states[i + 1],
                results[i],
            ),
    ensures
        forall|i: int| 0 <= i <= nows.len() ==> #[trigger] states[i] == states[0],
        forall|i: int|
            0 <= i < nows.len() ==> is_stays_open(#[trigger] results[i], states[0].name),
{
    assert forall|i: int| 0 <= i <= nows.len() implies #[trigger] states[i] == states[0] by {
        lemma_open_prefix(states, nows, fs, results, i);
    }
    assert forall|i: int| 0 <= i < nows.len() implies is_stays_open(
        #[trigger] results[i],
        states[0].name,
    ) by {
        lemma_open_prefix(states, nows, fs, results, i);
        assert(nows[i] <= states[0].time_of_tripping->Some_0 + states[0].timeout);
        assert(call_at(states[i], nows[i], fs[i], states[i + 1], results[i]));
    }
}

/// Once the timeout since the trip has strictly passed, a call on an open breaker runs
/// the wrapped function once, as a probe, and its outcome decides the new state and
/// the result; the breaker does not stay half-open.
pub proof fn lemma_probes_after_timeout<F: FnOnce() -> Result<R, E>, R, E>(
    pre: BreakerView,
    now: nat,
    f: F,
    post: BreakerView,
    r: Result<R, CircuitBreakerError<E>>,
)
    requires
        pre.wf(),
        pre.status == CircuitState::Open,
        now > pre.time_of_tripping->Some_0 + pre.timeout,
        call_at(pre, now, f, post, r),
    ensures
        exists|out: Result<R, E>| f.ensures((), out) && probe_call(pre, out, post, r),
        post.status == CircuitState::Close || post.status == CircuitState::Open,
        post.wf(),
{
    let out = choose|out: Result<R, E>| f.ensures((), out) && probe_call(pre, out, post, r);
    assert(probe_call(pre, out, post, r));
}

/// A successful probe closes the breaker with no failures counted and no trip time,
/// and returns the wrapped function's value.
pub proof fn lemma_probe_success_closes<R, E>(
    pre: BreakerView,
    v: R,
    post: BreakerView,
    r: Result<R, CircuitBreakerError<E>>,
)
    requires
        probe_call(pre, Ok::<R, E>(v), post, r),
    ensures
        post.status == CircuitState::Close,
        post.failure_count == 0,
        post.time_of_tripping is None,
        post.wf(),
        r == Ok::<R, CircuitBreakerError<E>>(v),
{
}

/// A failing probe opens the breaker again with a new trip time `t`, reports `Tripped`
/// with the probe's error, and calls are refused again until the timeout has passed
/// since `t`.
pub proof fn lemma_probe_failure_reopens<R, E>(
    pre: BreakerView,
    e: E,
    post: BreakerView,
    r: Result<R, CircuitBreakerError<E>>,
)
    requires
        pre.wf(),
        probe_call(pre, Err::<R, E>(e), post, r),
    ensures
        post.status == CircuitState::Open,
        post.wf(),
        is_tripped(r, pre.name, e),
        exists|t: nat|
            post == pre.trip(t) && forall|now: nat|
                now <= t + post.timeout ==> !(#[trigger] post.timed_out(now)),
{
    let t = choose|t: nat| post == pre.trip(t);
    assert forall|now: nat| now <= t + post.timeout implies !(#[trigger] post.timed_out(now)) by {}
}

proof fn lemma_success_prefix<R, E>(
    states: Seq<BreakerView>,
    vs: Seq<R>,
    results: Seq<Result<R, CircuitBreakerError<E>>>,
    k: int,
)
    requires
        states.len() == vs.len() + 1,
        results.len() == vs.len(),
        states[0].wf(),
        states[0].status == CircuitState::Close,
        states[0].failure_count == 0,
        forall|i: int|
            0 <= i < vs.len() ==> #[trigger] closed_call(
                states[i],
                Ok::<R, E>(vs[i]),
                states[i + 1],
                results[i],
            ),
        0 <= k <= vs.len(),
    ensures
        states[k] == states[0],
    decreases k,
{
    if k > 0 {
        lemma_success_prefix(states, vs, results, k - 1);
        let j = k - 1;
        assert(closed_call(states[j], Ok::<R, E>(vs[j]), states[j + 1], results[j]));
    }
}

/// Successes on a closed breaker with no failures counted change nothing: after any
/// number of them the breaker is exactly as it was, and each value is returned as it is.
pub proof fn lemma_successes_change_nothing<R, E>(
    states: Seq<BreakerView>,
    vs: Seq<R>,
    results: Seq<Result<R, CircuitBreakerError<E>>>,
)
    requires
        states.len() == vs.len() + 1,
        results.len() == vs.len(),
        states[0].wf(),
        states[0].status == CircuitState::Close,
        states[0].failure_count == 0,
        forall|i: int|
            0 <= i < vs.len() ==> #[trigger] closed_call(
                states[i],
                Ok::<R, E>(vs[i]),
                states[i + 1],
                results[i],
            ),
    ensures
        forall|i: int| 0 <= i <= vs.len() ==> #[trigger] states[i] == states[0],
        forall|i: int|
            0 <= i < vs.len() ==> #[trigger] results[i] == Ok::<R, CircuitBreakerError<E>>(
                vs[i],
            ),
{
    assert forall|i: int| 0 <= i <= vs.len() implies #[trigger] states[i] == states[0] by {
        lemma_success_prefix(states, vs, results, i);
    }
    assert forall|i: int|
        0 <= i < vs.len() implies #[trigger] results[i] == Ok::<R, CircuitBreakerError<E>>(
        vs[i],
    ) by {
        assert(closed_call(states[i], Ok::<R, E>(vs[i]), states[i + 1], results[i]));
    }
}

} // verus!
