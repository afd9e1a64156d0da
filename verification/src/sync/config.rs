//! Bounds on the sequence numbers in flight, which keep wrap-around comparisons unambiguous.
use vstd::prelude::*;

verus! {

/// Upper bound on un-acknowledged packets (below half the 16-bit circle).
pub const MAX_IN_FLIGHT: u16 = 32767;

/// Point near the wrap where the sender flushes its backlog: 65536 minus `MAX_IN_FLIGHT`.
pub const FLUSH_THRESHOLD: u16 = 32769;

/// The bounds an engine works with.
#[derive(Clone, Copy, Debug, PartialEq, Eq)]
pub struct EngineConfig {
    pub max_in_flight: u16,
    pub flush_threshold: u16,
}

impl Default for EngineConfig {
    fn default() -> (r: EngineConfig)
        ensures
            r.max_in_flight == MAX_IN_FLIGHT,
            r.flush_threshold == FLUSH_THRESHOLD,
    {
        EngineConfig { max_in_flight: MAX_IN_FLIGHT, flush_threshold: FLUSH_THRESHOLD }
    }
}

/// The guard band covers exactly the part of the circle beyond what may be in flight.
pub proof fn lemma_guard_band_complements_window()
    ensures
        MAX_IN_FLIGHT + FLUSH_THRESHOLD == 65536,
        MAX_IN_FLIGHT < 32768,
{
}

} // verus!
