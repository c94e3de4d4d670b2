//! Debouncer: filters mechanical switch bounce out of an edge source.
//!
//! The debouncer remembers when it last forwarded an event. An inner
//! event arriving at least the guard window after that moment is
//! forwarded and stamps a new moment; one arriving sooner is discarded,
//! not queued — the inner edge is consumed and lost, and nothing is
//! emitted until a further genuine edge arrives at or after the window.
//! No timer is armed to flush a suppressed event later, so during a
//! bounce burst the forwarded state can lag the true pin state by
//! design; the last physical edge before the pin settles is re-checked
//! against the window at its own, later time.

use vstd::prelude::*;

use crate::keypin::{Keypin, KeypinEvent, spec_next_event, spec_after_edge};

verus! {

/// Guard window in nanoseconds: the minimum spacing between two forwarded
/// events from the same source (15 ms).
pub const DEBOUNCE_NS: u64 = 15_000_000;

/// An edge source together with the debounce state wrapped around it.
#[derive(Debug, Clone, Copy)]
pub struct Debounced {
    /// The wrapped edge source.
    pub inner: Keypin,
    /// When the debouncer last forwarded an event, or `None` before the
    /// first one. Nanoseconds on the monotonic clock.
    pub last_event_time: Option<u64>,
}

/// Whether an inner event arriving at `now` is forwarded given the last
/// forwarded moment: always before the first event, afterwards only at or
/// past the guard window.
pub open spec fn spec_accepts(last: Option<u64>, now: u64) -> bool {
    match last {
        Option::None => true,
        Option::Some(t) => now - t >= DEBOUNCE_NS,
    }
}

/// A debouncer after it forwards an event at `now`.
pub open spec fn spec_forwarded_step(d: Debounced, now: u64) -> Debounced {
    Debounced { inner: spec_after_edge(d.inner), last_event_time: Some(now) }
}

/// A debouncer after it suppresses an event: the inner edge is consumed,
/// the last forwarded moment stands.
pub open spec fn spec_suppressed_step(d: Debounced) -> Debounced {
    Debounced { inner: spec_after_edge(d.inner), ..d }
}

impl Debounced {
    /// The clock reading `now` does not precede the last forwarded
    /// moment — what a monotonic clock guarantees of any later reading.
    pub open spec fn spec_time_ok(self, now: u64) -> bool {
        match self.last_event_time {
            Option::None => true,
            Option::Some(t) => t <= now,
        }
    }

    /// Wraps an edge source; no event has been forwarded yet.
    pub fn new(inner: Keypin) -> (r: Self)
        ensures
            r.inner == inner,
            r.last_event_time is None,
    {
        Debounced { inner, last_event_time: None }
    }

    /// The inner source observed its awaited edge at `now_ns` on the
    /// monotonic clock. The edge is consumed either way; the event it
    /// names is forwarded exactly when the guard window allows it.
    pub fn on_inner_edge(&mut self, now_ns: u64) -> (r: Option<KeypinEvent>)
        requires
            old(self).spec_time_ok(now_ns),
        ensures
            r is Some <==> spec_accepts(old(self).last_event_time, now_ns),
            r matches Some(ev) ==> ev == spec_next_event(old(self).inner),
            r is Some ==> *final(self) == spec_forwarded_step(*old(self), now_ns),
            r is None ==> *final(self) == spec_suppressed_step(*old(self)),
    {
        let ev = self.inner.on_edge();
        let forward = match self.last_event_time {
            None => true,
            Some(t) => now_ns - t >= DEBOUNCE_NS,
        };
        if forward {
            self.last_event_time = Some(now_ns);
            Some(ev)
        } else {
            None
        }
    }
}

/// The moments a debouncer forwards, out of inner events arriving at the
/// given moments, starting from last forwarded moment `last`.
pub open spec fn spec_forwarded_times(last: Option<u64>, times: Seq<u64>) -> Seq<u64>
    decreases times.len(),
{
    if times.len() == 0 {
        Seq::empty()
    } else if spec_accepts(last, times[0]) {
        seq![times[0]] + spec_forwarded_times(Some(times[0]), times.skip(1))
    } else {
        spec_forwarded_times(last, times.skip(1))
    }
}

/// The moments never decrease: how a monotonic clock stamps a stream of
/// events.
pub open spec fn spec_nondecreasing(times: Seq<u64>) -> bool {
    forall|k1: int, k2: int|
        0 <= k1 <= k2 < times.len() ==> #[trigger] times[k1] <= #[trigger] times[k2]
}

/// Every two of the moments, taken in order, lie at least the guard
/// window apart.
pub open spec fn spec_spaced(acc: Seq<u64>) -> bool {
    forall|k1: int, k2: int|
        0 <= k1 < k2 < acc.len() ==> #[trigger] acc[k2] - #[trigger] acc[k1] >= DEBOUNCE_NS
}

/// Every one of the moments lies at least the guard window past `t`.
pub open spec fn spec_all_past(acc: Seq<u64>, t: u64) -> bool {
    forall|k: int| 0 <= k < acc.len() ==> #[trigger] acc[k] - t >= DEBOUNCE_NS
}

/// Structure of the forwarded moments: they are pairwise at least the
/// guard window apart, and when a last forwarded moment is already set,
/// they all lie at least the window past it.
proof fn lemma_forwarded_times_structure(last: Option<u64>, times: Seq<u64>)
    requires
        spec_nondecreasing(times),
    ensures
        spec_spaced(spec_forwarded_times(last, times)),
        last matches Some(t) ==> spec_all_past(spec_forwarded_times(last, times), t),
    decreases times.len(),
{
    if times.len() > 0 {
        let rest = times.skip(1);
        assert(spec_nondecreasing(rest)) by {
            assert(forall|k1: int, k2: int|
                0 <= k1 <= k2 < rest.len() ==> #[trigger] rest[k1] == times[k1 + 1]
                    && #[trigger] rest[k2] == times[k2 + 1]);
        }
        if spec_accepts(last, times[0]) {
            let x = times[0];
            lemma_forwarded_times_structure(Some(x), rest);
            let tail = spec_forwarded_times(Some(x), rest);
            let whole = spec_forwarded_times(last, times);
            assert(whole == seq![x] + tail);
            assert(whole[0] == x);
            assert forall|k1: int, k2: int| 0 <= k1 < k2 < whole.len() implies whole[k2]
                - whole[k1] >= DEBOUNCE_NS by {
                assert(whole[k2] == tail[k2 - 1]);
                if k1 == 0 {
                    assert(tail[k2 - 1] - x >= DEBOUNCE_NS);
                } else {
                    assert(whole[k1] == tail[k1 - 1]);
                }
            }
            match last {
                Some(t) => {
                    assert forall|k: int| 0 <= k < whole.len() implies whole[k] - t
                        >= DEBOUNCE_NS by {
                        if k > 0 {
                            assert(whole[k] == tail[k - 1]);
                            assert(tail[k - 1] - x >= DEBOUNCE_NS);
                        }
                    }
                },
                None => {},
            }
        } else {
            lemma_forwarded_times_structure(last, rest);
            assert(spec_forwarded_times(last, times) == spec_forwarded_times(last, rest));
        }
    }
}

/// Any two events a debouncer forwards from one source lie at least the
/// guard window apart: out of inner events stamped by a monotonic clock,
/// the moments of the forwarded events differ pairwise by at least
/// `DEBOUNCE_NS`.
pub proof fn lemma_forwarded_events_spaced(times: Seq<u64>, i: int, j: int)
    requires
        spec_nondecreasing(times),
        0 <= i < j < spec_forwarded_times(None, times).len(),
    ensures
        spec_forwarded_times(None, times)[j] - spec_forwarded_times(None, times)[i]
            >= DEBOUNCE_NS,
{
    lemma_forwarded_times_structure(None, times);
}

} // verus!
