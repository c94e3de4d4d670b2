//! Matrix scanner: multiplexes debounced key pins into one event stream.
//!
//! Each scan attempt walks the pins in fixed ascending index order and
//! emits the event of the first pin that has a pending edge and passes
//! its debouncer, leaving every later pin untouched for a subsequent
//! attempt. Lower-index pins therefore always win ties; a generator that
//! keeps pin 0 perpetually ready can starve higher-index pins
//! indefinitely. This is a deliberate simplicity trade, documented as a
//! known fairness limitation, not a bug.

use vstd::prelude::*;

use crate::debounce::{Debounced, spec_accepts, spec_forwarded_step, spec_suppressed_step};
use crate::keypin::{Keypin, KeypinEvent, spec_next_event};

verus! {

/// A key transition tagged with the pin's static label and optional
/// keycode payload, ready for a downstream report builder.
#[derive(Debug, Clone, Copy, PartialEq, Eq)]
pub enum MatrixEvent {
    KeyDown(&'static str, Option<char>),
    KeyUp(&'static str, Option<char>),
}

/// The matrix event a pin's transition turns into.
pub open spec fn spec_matrix_event(p: Keypin, ev: KeypinEvent) -> MatrixEvent {
    match ev {
        KeypinEvent::Down => MatrixEvent::KeyDown(p.label, p.keycode),
        KeypinEvent::Up => MatrixEvent::KeyUp(p.label, p.keycode),
    }
}

/// Whether pin `i` yields an event in this attempt: it has a pending edge
/// and its debouncer forwards the event at `now`.
pub open spec fn spec_scan_hit(pins: Seq<Debounced>, edges: Seq<bool>, now: u64, i: int) -> bool {
    edges[i] && spec_accepts(pins[i].last_event_time, now)
}

/// The index the scan emits from, searching ascending from `from`: the
/// first pin with a pending, debouncer-accepted edge, or `None` when no
/// pin yields one.
pub open spec fn spec_scan_winner(
    pins: Seq<Debounced>,
    edges: Seq<bool>,
    now: u64,
    from: int,
) -> Option<int>
    decreases pins.len() - from,
{
    if from < 0 || from >= pins.len() {
        None
    } else if spec_scan_hit(pins, edges, now, from) {
        Some(from)
    } else {
        spec_scan_winner(pins, edges, now, from + 1)
    }
}

/// The fixed-priority scanner over a bank of debounced key pins.
pub struct Matrix {
    /// The debounced sources, in scan order; index is pin priority.
    pub pins: Vec<Debounced>,
}

impl Matrix {
    /// All debounce clocks are at or before the reading `now`.
    pub open spec fn spec_time_ok(self, now: u64) -> bool {
        forall|i: int| 0 <= i < self.pins@.len() ==> (#[trigger] self.pins@[i]).spec_time_ok(now)
    }

    /// Wraps each key pin in a fresh debouncer, in the given order.
    pub fn new(sources: Vec<Keypin>) -> (r: Self)
        ensures
            r.pins@.len() == sources@.len(),
            forall|i: int|
                0 <= i < sources@.len() ==> (#[trigger] r.pins@[i]).inner == sources@[i]
                    && r.pins@[i].last_event_time is None,
    {
        let mut pins: Vec<Debounced> = Vec::new();
        let mut i: usize = 0;
        while i < sources.len()
            invariant
                i <= sources@.len(),
                pins@.len() == i,
                forall|k: int|
                    0 <= k < i as int ==> (#[trigger] pins@[k]).inner == sources@[k]
                        && pins@[k].last_event_time is None,
            decreases sources@.len() - i,
        {
            pins.push(Debounced::new(*sources.get(i).unwrap()));
            i += 1;
        }
        Matrix { pins }
    }

    /// One scan attempt. `edges[i]` says whether pin `i` observed its
    /// awaited edge since the last attempt; `now_ns` stamps the attempt
    /// on the monotonic clock. The first pin, in ascending index order,
    /// whose pending edge passes its debouncer has its event emitted;
    /// every pin before it that had a pending edge has that edge consumed
    /// and suppressed; every pin after it is left exactly as it was, so a
    /// simultaneously ready higher-index pin emits only on a subsequent
    /// attempt. When no pin yields an event the attempt emits nothing.
    pub fn scan(&mut self, edges: &Vec<bool>, now_ns: u64) -> (r: Option<MatrixEvent>)
        requires
            edges@.len() == old(self).pins@.len(),
            old(self).spec_time_ok(now_ns),
        ensures
            final(self).pins@.len() == old(self).pins@.len(),
            match spec_scan_winner(old(self).pins@, edges@, now_ns, 0) {
                Some(w) => {
                    &&& r == Some(
                        spec_matrix_event(
                            old(self).pins@[w].inner,
                            spec_next_event(old(self).pins@[w].inner),
                        ),
                    )
                    &&& final(self).pins@[w] == spec_forwarded_step(old(self).pins@[w], now_ns)
                    &&& forall|k: int|
                        w < k < old(self).pins@.len() ==> #[trigger] final(self).pins@[k] == old(
                            self,
                        ).pins@[k]
                    &&& forall|k: int|
                        0 <= k < w ==> #[trigger] final(self).pins@[k] == (if edges@[k] {
                            spec_suppressed_step(old(self).pins@[k])
                        } else {
                            old(self).pins@[k]
                        })
                },
                None => {
                    &&& r is None
                    &&& forall|k: int|
                        0 <= k < old(self).pins@.len() ==> #[trigger] final(self).pins@[k] == (
                        if edges@[k] {
                            spec_suppressed_step(old(self).pins@[k])
                        } else {
                            old(self).pins@[k]
                        })
                },
            },
    {
        let n = self.pins.len();
        let mut i: usize = 0;
        while i < n
            invariant
                n == self.pins@.len(),
                n == old(self).pins@.len(),
                edges@.len() == n,
                i <= n,
                old(self).spec_time_ok(now_ns),
                forall|k: int|
                    i as int <= k < n as int ==> #[trigger] self.pins@[k] == old(self).pins@[k],
                forall|k: int|
                    0 <= k < i as int ==> #[trigger] self.pins@[k] == (if edges@[k] {
                        spec_suppressed_step(old(self).pins@[k])
                    } else {
                        old(self).pins@[k]
                    }),
                forall|k: int| 0 <= k < i as int ==> !spec_scan_hit(old(self).pins@, edges@, now_ns, k),
                spec_scan_winner(old(self).pins@, edges@, now_ns, 0) == spec_scan_winner(
                    old(self).pins@,
                    edges@,
                    now_ns,
                    i as int,
                ),
            decreases n - i,
        {
            if *edges.get(i).unwrap() {
                let mut pin = *self.pins.get(i).unwrap();
                let label = pin.inner.label;
                let keycode = pin.inner.keycode;
                let forwarded = pin.on_inner_edge(now_ns);
                self.pins.set(i, pin);
                match forwarded {
                    Some(ev) => {
                        let out = match ev {
                            KeypinEvent::Down => MatrixEvent::KeyDown(label, keycode),
                            KeypinEvent::Up => MatrixEvent::KeyUp(label, keycode),
                        };
                        proof {
                            assert(spec_scan_hit(old(self).pins@, edges@, now_ns, i as int));
                            assert(spec_scan_winner(old(self).pins@, edges@, now_ns, i as int)
                                == Some(i as int));
                        }
                        return Some(out);
                    },
                    None => {},
                }
            }
            i += 1;
        }
        None
    }
}

/// Fixed-priority tie break: when pins `i < j` are both ready in one
/// attempt — each with a pending edge its debouncer would forward — the
/// scan emits from an index no higher than `i`, never from `j`.
pub proof fn lemma_lower_index_wins(
    pins: Seq<Debounced>,
    edges: Seq<bool>,
    now: u64,
    i: int,
    j: int,
)
    requires
        edges.len() == pins.len(),
        0 <= i < j < pins.len(),
        spec_scan_hit(pins, edges, now, i),
        spec_scan_hit(pins, edges, now, j),
    ensures
        spec_scan_winner(pins, edges, now, 0) matches Some(w) && w <= i < j,
{
    lemma_scan_winner_least(pins, edges, now, 0, i);
}

/// The scan's pick, searching from `from`, lands on a hit at or before
/// any known hit `i`, and on no index it skipped.
pub proof fn lemma_scan_winner_least(pins: Seq<Debounced>, edges: Seq<bool>, now: u64, from: int, i: int)
    requires
        0 <= from <= i < pins.len(),
        spec_scan_hit(pins, edges, now, i),
    ensures
        spec_scan_winner(pins, edges, now, from) matches Some(w)
            && from <= w <= i
            && spec_scan_hit(pins, edges, now, w)
            && (forall|k: int| from <= k < w ==> !spec_scan_hit(pins, edges, now, k)),
    decreases i - from,
{
    if !spec_scan_hit(pins, edges, now, from) {
        lemma_scan_winner_least(pins, edges, now, from + 1, i);
    }
}

} // verus!
