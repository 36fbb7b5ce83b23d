use vstd::prelude::*;

mod error;
mod proofs;
mod state;
mod threshold;
mod time;

pub use error::CircuitBreakerError;
pub use proofs::{
    failures_in_a_row, lemma_closed_within_threshold, lemma_probe_failure_reopens,
    lemma_probe_success_closes, lemma_probes_after_timeout, lemma_stays_open_within_timeout,
    lemma_successes_change_nothing, lemma_trips_past_threshold,
};
pub use state::CircuitState;
pub use threshold::{
    call_at, closed_call, is_failed, is_stays_open, is_tripped, open_call, probe_call, BreakerView,
    ThresholdBreaker, DEFAULT_THRESHOLD, DEFAULT_TIMEOUT_SECS,
};
pub use time::Duration;

verus! {

/// A guard around a fallible function: depending on its state, the breaker calls the
/// function or refuses the call, and reports failures as `CircuitBreakerError`s.
pub trait CircuitBreaker<F, R, E> where F: FnOnce() -> Result<R, E> {
    /// Calls `f` through the breaker. An error of `f` is never dropped: it comes back
    /// inside `Failed` or `Tripped`.
    fn call(&mut self, f: F) -> (r: Result<R, CircuitBreakerError<E>>)
        requires
            f.requires(()),
    ;
}

} // verus!
