use sweep_core::debounce::{Debounced, DEBOUNCE_NS};
use sweep_core::keypin::{Keypin, KeypinEvent};
use sweep_core::matrix::{Matrix, MatrixEvent};

#[test]
fn edge_source_alternates_starting_down() {
    let mut pin = Keypin::new("0", Some('g'));
    assert!(pin.waits_for_low());
    assert_eq!(pin.on_edge(), KeypinEvent::Down);
    assert!(!pin.waits_for_low());
    assert_eq!(pin.on_edge(), KeypinEvent::Up);
    assert_eq!(pin.on_edge(), KeypinEvent::Down);
    assert_eq!(pin.on_edge(), KeypinEvent::Up);
}

#[test]
fn edge_source_keeps_metadata() {
    let mut pin = Keypin::new("7", Some('w'));
    pin.on_edge();
    assert_eq!(pin.label, "7");
    assert_eq!(pin.keycode, Some('w'));
}

#[test]
fn debounce_first_event_passes() {
    let mut d = Debounced::new(Keypin::new("0", None));
    assert_eq!(d.on_inner_edge(5_000_000_000), Some(KeypinEvent::Down));
}

#[test]
fn debounce_burst_forwards_only_first_edge() {
    // Inner edges Down@t0, Up@t0+3ms, Down@t0+6ms, then steady; guard 15ms.
    let t0: u64 = 100_000_000;
    let ms: u64 = 1_000_000;
    let mut d = Debounced::new(Keypin::new("3", Some('j')));
    assert_eq!(d.on_inner_edge(t0), Some(KeypinEvent::Down));
    assert_eq!(d.on_inner_edge(t0 + 3 * ms), None);
    assert_eq!(d.on_inner_edge(t0 + 6 * ms), None);
    // The pin has settled pressed; nothing more is emitted until a genuine
    // release edge arrives at or after t0 + 15ms.
    assert_eq!(d.on_inner_edge(t0 + 15 * ms), Some(KeypinEvent::Up));
}

#[test]
fn debounce_edge_just_inside_window_is_lost() {
    let t0: u64 = 0;
    let mut d = Debounced::new(Keypin::new("4", None));
    assert_eq!(d.on_inner_edge(t0), Some(KeypinEvent::Down));
    assert_eq!(d.on_inner_edge(t0 + DEBOUNCE_NS - 1), None);
    // The suppressed edge is discarded, not queued: the next accepted edge
    // carries the pin's next transition, which the lost release inverted.
    assert_eq!(d.on_inner_edge(t0 + 2 * DEBOUNCE_NS), Some(KeypinEvent::Down));
}

#[test]
fn scan_emits_lowest_ready_pin_first() {
    let sources = vec![
        Keypin::new("0", Some('g')),
        Keypin::new("2", Some('q')),
        Keypin::new("3", Some('j')),
    ];
    let mut m = Matrix::new(sources);
    // Pins 0 and 1 are simultaneously ready: pin 0 wins the attempt.
    let edges = vec![true, true, false];
    assert_eq!(m.scan(&edges, 1_000_000), Some(MatrixEvent::KeyDown("0", Some('g'))));
    // Pin 1 was left untouched and emits on the next attempt.
    let edges = vec![false, true, false];
    assert_eq!(m.scan(&edges, 2_000_000), Some(MatrixEvent::KeyDown("2", Some('q'))));
}

#[test]
fn scan_with_no_ready_pin_emits_nothing() {
    let mut m = Matrix::new(vec![Keypin::new("0", None), Keypin::new("2", None)]);
    let edges = vec![false, false];
    assert_eq!(m.scan(&edges, 1_000_000), None);
}

#[test]
fn scan_skips_suppressed_pin_and_consumes_its_edge() {
    let ms: u64 = 1_000_000;
    let mut m = Matrix::new(vec![Keypin::new("0", None), Keypin::new("2", None)]);
    assert_eq!(m.scan(&vec![true, false], 0), Some(MatrixEvent::KeyDown("0", None)));
    // Pin 0 bounces 1ms later: its edge is consumed but suppressed, so the
    // ready pin 1 wins this attempt.
    assert_eq!(m.scan(&vec![true, true], 1 * ms), Some(MatrixEvent::KeyDown("2", None)));
    // Pin 0's lost release left it expecting a press next; well past the
    // guard window the next edge is forwarded as Down again.
    assert_eq!(m.scan(&vec![true, false], 20 * ms), Some(MatrixEvent::KeyDown("0", None)));
}
