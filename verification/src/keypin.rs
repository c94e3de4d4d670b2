//! Edge source: one active-low key switch as a two-state event stream.
//!
//! The source tracks whether its pin is currently considered pressed.
//! While released it waits for a falling edge and emits `Down`; while
//! pressed it waits for a rising edge and emits `Up`. The waiting itself
//! is hardware work and happens outside this crate; the state machine
//! here decides which edge is awaited and what each observed edge means.

use vstd::prelude::*;

verus! {

/// A key transition: the pin went down (pressed) or up (released).
#[derive(Debug, Clone, Copy, PartialEq, Eq, Structural)]
pub enum KeypinEvent {
    Down,
    Up,
}

/// State machine of one key pin, bound 1:1 to a physical input pin at
/// startup and never reconfigured. `label` and `keycode` are immutable
/// metadata carried alongside the event stream; the pipeline never reads
/// the keycode.
#[derive(Debug, Clone, Copy)]
pub struct Keypin {
    /// Static identifier of the physical pin.
    pub label: &'static str,
    /// Optional user-layer payload attached at configuration time.
    pub keycode: Option<char>,
    /// Whether the pin is currently considered pressed.
    pub is_down: bool,
}

/// The event the source emits on its next observed edge.
pub open spec fn spec_next_event(p: Keypin) -> KeypinEvent {
    if p.is_down {
        KeypinEvent::Up
    } else {
        KeypinEvent::Down
    }
}

/// The source's state after it observes one edge: the pressed flag flips,
/// the metadata stays.
pub open spec fn spec_after_edge(p: Keypin) -> Keypin {
    Keypin { is_down: !p.is_down, ..p }
}

impl Keypin {
    /// A fresh source for one pin, initialized to released.
    pub fn new(label: &'static str, keycode: Option<char>) -> (r: Self)
        ensures
            r.label == label,
            r.keycode == keycode,
            !r.is_down,
    {
        Keypin { label, keycode, is_down: false }
    }

    /// Which level transition the source waits for next: the pin is
    /// active-low, so a released key waits for the line to go low and a
    /// pressed key waits for it to go high.
    pub fn waits_for_low(&self) -> (r: bool)
        ensures
            r == !self.is_down,
    {
        !self.is_down
    }

    /// The awaited edge was observed: emit the transition and flip state.
    pub fn on_edge(&mut self) -> (r: KeypinEvent)
        ensures
            r == spec_next_event(*old(self)),
            *final(self) == spec_after_edge(*old(self)),
    {
        if self.is_down {
            self.is_down = false;
            KeypinEvent::Up
        } else {
            self.is_down = true;
            KeypinEvent::Down
        }
    }
}

/// `evs` is a stream that an edge source starting with pressed-state
/// `from_down` can emit: each event is `Down` exactly when the source was
/// released, and leaves the source in the state the event names.
pub open spec fn spec_emission(from_down: bool, evs: Seq<KeypinEvent>) -> bool
    decreases evs.len(),
{
    evs.len() == 0 || {
        &&& ((evs[0] is Down) <==> !from_down)
        &&& spec_emission(evs[0] is Down, evs.skip(1))
    }
}

/// The pressed-state of a source after it has emitted `evs` from
/// pressed-state `from_down`: the last event names it.
pub open spec fn spec_state_after(from_down: bool, evs: Seq<KeypinEvent>) -> bool {
    if evs.len() == 0 {
        from_down
    } else {
        evs.last() is Down
    }
}

/// Each event of an emission is determined by its position: positions of
/// even distance from the start repeat the first transition, odd
/// positions the opposite one.
proof fn lemma_emission_parity(from_down: bool, evs: Seq<KeypinEvent>)
    requires
        spec_emission(from_down, evs),
    ensures
        forall|k: int|
            0 <= k < evs.len() ==> ((#[trigger] evs[k] is Down) <==> if k % 2 == 0 {
                !from_down
            } else {
                from_down
            }),
    decreases evs.len(),
{
    if evs.len() > 0 {
        lemma_emission_parity(evs[0] is Down, evs.skip(1));
        assert forall|k: int| 1 <= k < evs.len() implies ((#[trigger] evs[k] is Down)
            <==> if k % 2 == 0 {
                !from_down
            } else {
                from_down
            }) by {
            assert(evs.skip(1)[k - 1] == evs[k]);
            assert((k - 1) % 2 == if k % 2 == 0 {
                1int
            } else {
                0int
            });
        }
    }
}

/// The events of a source that starts released strictly alternate
/// `Down`/`Up`, starting with `Down`: the event at each even position is
/// `Down`, at each odd position `Up`, and no two consecutive events are
/// alike.
pub proof fn lemma_fresh_emission_alternates(evs: Seq<KeypinEvent>)
    requires
        spec_emission(false, evs),
    ensures
        forall|k: int| 0 <= k < evs.len() ==> ((#[trigger] evs[k] is Down) <==> k % 2 == 0),
        forall|k: int| 1 <= k < evs.len() ==> #[trigger] evs[k] != evs[k - 1],
        evs.len() > 0 ==> evs[0] is Down,
{
    lemma_emission_parity(false, evs);
    assert forall|k: int| 1 <= k < evs.len() implies #[trigger] evs[k] != evs[k - 1] by {
        assert((k - 1) % 2 == if k % 2 == 0 {
            1int
        } else {
            0int
        });
    }
}

/// Appending the transition a source emits next keeps the stream a valid
/// emission: this is exactly the step `on_edge` performs.
pub proof fn lemma_emission_extend(from_down: bool, evs: Seq<KeypinEvent>, ev: KeypinEvent)
    requires
        spec_emission(from_down, evs),
        (ev is Down) <==> !spec_state_after(from_down, evs),
    ensures
        spec_emission(from_down, evs.push(ev)),
        spec_state_after(from_down, evs.push(ev)) == (ev is Down),
    decreases evs.len(),
{
    assert(evs.push(ev).last() == ev);
    if evs.len() == 0 {
        assert(evs.push(ev)[0] == ev);
        assert(evs.push(ev).skip(1) =~= Seq::<KeypinEvent>::empty());
        assert(spec_emission(ev is Down, evs.push(ev).skip(1)));
    } else {
        assert(evs.push(ev)[0] == evs[0]);
        assert(evs.push(ev).skip(1) =~= evs.skip(1).push(ev));
        assert(spec_state_after(evs[0] is Down, evs.skip(1)) == spec_state_after(
            from_down,
            evs,
        )) by {
            if evs.len() == 1 {
                assert(evs.skip(1).len() == 0);
                assert(evs[0] == evs.last());
            } else {
                assert(evs.skip(1).last() == evs.last());
            }
        }
        lemma_emission_extend(evs[0] is Down, evs.skip(1), ev);
    }
}

} // verus!
