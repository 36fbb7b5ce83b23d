use vstd::prelude::*;

verus! {

/// The three states of a circuit breaker.
#[derive(Debug, Clone, Copy, PartialEq, Eq, Structural)]
pub enum CircuitState {
    /// Tripped: calls are refused until the timeout has passed.
    Open,
    /// Normal operation: calls go through and failures are counted.
    Close,
    /// Probing: the next call decides whether the breaker closes again.
    HalfOpen,
}

} // verus!
