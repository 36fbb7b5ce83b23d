use vstd::prelude::*;

verus! {

/// The error returned by a circuit breaker when the guarded call did not succeed.
#[derive(Debug)]
pub enum CircuitBreakerError<E> {
    /// The wrapped function failed, and the breaker stays closed.
    /// The wrapped function's own error is carried along.
    Failed(E),
    /// The wrapped function failed and the breaker (re)opened.
    /// Carries the breaker's name and the wrapped function's error.
    Tripped(String, E),
    /// The breaker is open and the timeout has not passed: the wrapped
    /// function was not called. Carries the breaker's name.
    StaysOpen(String),
}

} // verus!
