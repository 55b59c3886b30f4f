//! Reading the clock.

use tokio::time::Instant;
use vstd::prelude::*;

verus! {

/// Declares `tokio::time::Instant`. Nothing is claimed of it.
#[verifier::external_type_specification]
#[verifier::external_body]
pub struct ExInstant(Instant);

/// Calls `Instant::now`. The result is up to the clock.
#[verifier::external_body]
fn now() -> (now: Instant) {
    Instant::now()
}

/// The nanoseconds that `Instant::saturating_duration_since` finds between two
/// instants.
pub uninterp spec fn nanos_between(later: Instant, earlier: Instant) -> u128;

/// Calls `Instant::saturating_duration_since`, and returns the time in
/// nanoseconds. It is a function of the two instants alone, and nothing more is
/// claimed of it.
#[verifier::external_body]
pub(crate) fn nanos_since(later: Instant, earlier: Instant) -> (nanos: u128)
    ensures
        nanos == nanos_between(later, earlier),
{
    later.saturating_duration_since(earlier).as_nanos()
}

/// A clock that remembers, for the sake of contracts, what it has read.
///
/// [`read`](Self::read) is the only thing that adds to
/// [`readings`](Self::readings).
pub struct Clock {
    readings: Ghost<Seq<Instant>>,
}

impl Clock {
    /// All that the clock has read, in order.
    pub closed spec fn readings(&self) -> Seq<Instant> {
        self.readings@
    }

    /// A clock that has read nothing.
    pub(crate) fn new() -> (clock: Self)
        ensures
            clock.readings() == Seq::<Instant>::empty(),
    {
        Clock { readings: Ghost(Seq::empty()) }
    }

    /// Reads the clock.
    pub(crate) fn read(&mut self) -> (at: Instant)
        ensures
            final(self).readings() == old(self).readings().push(at),
    {
        let at = now();
        self.readings = Ghost(self.readings@.push(at));
        at
    }
}

} // verus!
