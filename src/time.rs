use vstd::prelude::*;

verus! {

/// Nanoseconds in one second.
pub const NANOS_PER_SEC: u128 = 1_000_000_000;

/// A span of time, counted in whole nanoseconds.
///
/// Built from seconds and nanoseconds, like `std::time::Duration`; the nanosecond
/// part may exceed a second and then carries into the seconds, as long as the
/// whole seconds still fit in a `u64`.
#[derive(Debug, Clone, Copy, PartialEq, Eq, Structural)]
pub struct Duration {
    nanos: u128,
}

/// The longest span that `Duration::new` can build, in nanoseconds.
pub open spec fn max_duration_nanos() -> nat {
    (u64::MAX * 1_000_000_000 + 999_999_999) as nat
}

impl View for Duration {
    type V = nat;

    /// The span in nanoseconds.
    closed spec fn view(&self) -> nat {
        self.nanos as nat
    }
}

impl Duration {
    #[verifier::type_invariant]
    spec fn fits(self) -> bool {
        self.nanos <= max_duration_nanos()
    }

    /// The span of `secs` seconds plus `nanos` nanoseconds.
    pub fn new(secs: u64, nanos: u32) -> (r: Duration)
        requires
            secs * 1_000_000_000 + nanos <= max_duration_nanos(),
        ensures
            r@ == secs * 1_000_000_000 + nanos,
    {
        assert(secs as u128 * NANOS_PER_SEC <= u64::MAX * 1_000_000_000) by (nonlinear_arith)
            requires
                secs <= u64::MAX,
        ;
        Duration { nanos: secs as u128 * NANOS_PER_SEC + nanos as u128 }
    }

    /// The span in nanoseconds.
    pub fn as_nanos(&self) -> (r: u128)
        ensures
            r == self@,
            r <= max_duration_nanos(),
    {
        proof {
            use_type_invariant(self);
        }
        self.nanos
    }

    /// The whole seconds of the span.
    pub fn as_secs(&self) -> (r: u64)
        ensures
            r == self@ / 1_000_000_000,
    {
        proof {
            use_type_invariant(self);
        }
        proof {
            vstd::arithmetic::div_mod::lemma_div_is_ordered(
                self.nanos as int,
                max_duration_nanos() as int,
                1_000_000_000,
            );
            vstd::arithmetic::div_mod::lemma_fundamental_div_mod_converse(
                max_duration_nanos() as int,
                1_000_000_000,
                u64::MAX as int,
                999_999_999,
            );
        }
        (self.nanos / NANOS_PER_SEC) as u64
    }

    /// The nanoseconds of the span beyond its whole seconds.
    pub fn subsec_nanos(&self) -> (r: u32)
        ensures
            r == self@ % 1_000_000_000,
    {
        (self.nanos % NANOS_PER_SEC) as u32
    }
}

} // verus!
