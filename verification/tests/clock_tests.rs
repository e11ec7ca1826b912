use sceno::clock::{at_least_one, SharedClock};
use std::time::Instant;

#[test]
fn beats_per_bar_is_never_zero() {
    assert_eq!(at_least_one(0), 1);
    assert_eq!(at_least_one(3), 3);
    let c = SharedClock::with_bpm_milli(120_000, 0);
    assert_eq!(c.beats_per_bar(), 1);
    c.set_beats_per_bar(0);
    assert_eq!(c.beats_per_bar(), 1);
    c.set_beats_per_bar(7);
    assert_eq!(c.beats_per_bar(), 7);
}

#[test]
fn clones_share_state() {
    let c = SharedClock::with_bpm_milli(96_000, 4);
    let d = c.clone();
    assert!(!c.running());
    assert!(c.audible());
    d.set_running(true);
    d.set_audible(false);
    d.set_bpm_milli(100_500);
    assert!(c.running());
    assert!(!c.audible());
    assert_eq!(c.bpm_milli(), 100_500);
}

#[test]
fn anchor_to_moves_the_downbeat() {
    let c = SharedClock::with_bpm_milli(120_000, 4);
    assert_eq!(c.anchor_nanos(), 0);
    let t = Instant::now();
    c.anchor_to(t);
    assert_eq!(c.anchor_nanos(), c.rel_nanos(t));
    assert!(c.anchor_nanos() >= 0);
}
