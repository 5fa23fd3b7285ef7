//! The startup delay: bounds, the draw of the delay, and what the
//! degenerate bounds of the shipped configuration force.

use vstd::prelude::*;

verus! {

/// Inclusive-exclusive bounds, in whole seconds, for the startup delay.
///
/// The shipped configuration is `[1, 2)`: the only producible delay is
/// one second. The bounds are kept as data so that a variable delay can
/// be configured without code changes.
pub struct DelayBounds {
    /// Least delay, in seconds, that may be drawn (inclusive).
    pub min_secs: u64,
    /// Upper bound, in seconds, on the drawn delay (exclusive).
    pub max_secs: u64,
}

impl DelayBounds {
    /// A non-empty range: at least one delay is producible.
    pub open spec fn wf(self) -> bool {
        self.min_secs < self.max_secs
    }

    /// Bounds with at least one producible delay; `None` when the range
    /// is empty.
    pub fn new(min_secs: u64, max_secs: u64) -> (r: Option<DelayBounds>)
        ensures
            r is Some <==> min_secs < max_secs,
            r is Some ==> r->0 == (DelayBounds { min_secs, max_secs }),
            r is Some ==> r->0.wf(),
    {
        if min_secs < max_secs {
            Some(DelayBounds { min_secs, max_secs })
        } else {
            None
        }
    }

    /// The shipped configuration: `[1, 2)` seconds, so the delay is
    /// always exactly one second.
    pub fn shipped() -> (r: DelayBounds)
        ensures
            r.min_secs == 1,
            r.max_secs == 2,
            r.wf(),
    {
        DelayBounds { min_secs: 1, max_secs: 2 }
    }
}

/// Relies on `rand::Rng::gen_range` on a thread-local generator: the
/// result of drawing from the half-open range `lo..hi` lies in that
/// range. `gen_range` panics on an empty range, so the range is
/// required to be non-empty.
#[verifier::external_body]
fn random_in_range(lo: u64, hi: u64) -> (r: u64)
    requires
        lo < hi,
    ensures
        lo <= r < hi,
{
    rand::Rng::gen_range(&mut rand::thread_rng(), lo..hi)
}

/// Draw the startup delay: uniformly distributed over the bounds, and
/// in any case at least `min_secs` and strictly below `max_secs`.
pub fn pick_delay_secs(bounds: &DelayBounds) -> (d: u64)
    requires
        bounds.wf(),
    ensures
        bounds.min_secs <= d < bounds.max_secs,
{
    random_in_range(bounds.min_secs, bounds.max_secs)
}

/// With bounds whose range holds a single integer, every delay the
/// bounds admit equals the minimum: under the shipped `[1, 2)`
/// configuration the delay is constant at one second.
pub proof fn lemma_degenerate_bounds_force_constant_delay(bounds: DelayBounds, d: u64)
    requires
        bounds.wf(),
        bounds.max_secs == bounds.min_secs + 1,
        bounds.min_secs <= d < bounds.max_secs,
    ensures
        d == bounds.min_secs,
{
}

} // verus!
