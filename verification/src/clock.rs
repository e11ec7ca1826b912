//! The shared beat clock: a constant tempo with a downbeat phase anchor.
//!
//! [`SharedClock`] is cloned across the UI thread, the audio click thread and
//! the detection thread; all reads and writes go through atomics, so it is the
//! single source of truth that keeps the audible click and the visual flash in
//! lockstep. Because other threads may store at any time, a read promises only
//! what every stored value satisfies. The tempo is kept as BPM × 1000; the
//! phase anchor is the nanosecond offset, from the clock's creation, of a
//! downbeat (beat index 0).
use std::sync::atomic::{AtomicBool, AtomicI64, AtomicU32, AtomicU64, Ordering};
use std::sync::Arc;
use std::time::{Duration, Instant};
use vstd::prelude::*;

verus! {

/// std's `Instant`, carried through opaque.
#[verifier::external_type_specification]
#[verifier::external_body]
pub struct ExInstant(Instant);

/// std's `Instant::now`: the current monotonic time (nothing is claimed of it).
#[verifier::external_body]
fn now() -> (t: Instant) {
    Instant::now()
}

/// std's `Instant::saturating_duration_since`: time from `earlier` to `later`,
/// zero when `earlier` is the later one (nothing further is claimed).
#[verifier::external_body]
fn saturating_duration_since(later: Instant, earlier: Instant) -> (d: Duration) {
    later.saturating_duration_since(earlier)
}

/// std's `Duration::as_nanos`: the whole nanoseconds of `d` (not modelled further).
#[verifier::external_body]
fn as_nanos(d: Duration) -> (n: u128) {
    d.as_nanos()
}

struct Inner {
    /// Creation-time reference for the nanosecond anchor.
    base: Instant,
    /// BPM × 1000, so tempo survives as an integer atomic.
    bpm_milli: AtomicU64,
    beats_per_bar: AtomicU32,
    /// Nanoseconds from `base` to the beat-0 downbeat (may be negative).
    anchor_nanos: AtomicI64,
    running: AtomicBool,
    audible: AtomicBool,
}

/// A cheap-to-clone handle to the shared beat clock.
#[derive(Clone)]
pub struct SharedClock(Arc<Inner>);

/// At least one beat per bar.
pub fn at_least_one(n: u32) -> (r: u32)
    ensures
        r == if n == 0 {
            1
        } else {
            n
        },
{
    if n == 0 {
        1
    } else {
        n
    }
}

/// Nanoseconds as an `i64` (wrapping, as a plain integer cast does).
fn nanos_to_i64(n: u128) -> (r: i64)
    ensures
        r == n as i64,
{
    n as i64
}

impl SharedClock {
    /// A clock at `bpm_milli` (BPM × 1000) and `beats_per_bar` (at least 1),
    /// stopped, with audio enabled and the downbeat anchored at creation time.
    /// The atomics' contents have no model here, so no clause states them.
    pub fn with_bpm_milli(bpm_milli: u64, beats_per_bar: u32) -> (c: SharedClock) {
        let inner = Inner {
            base: now(),
            bpm_milli: AtomicU64::new(bpm_milli),
            beats_per_bar: AtomicU32::new(at_least_one(beats_per_bar)),
            anchor_nanos: AtomicI64::new(0),
            running: AtomicBool::new(false),
            audible: AtomicBool::new(true),
        };
        SharedClock(Arc::new(inner))
    }

    /// Tempo as BPM × 1000: whatever a thread last stored (no clause states it).
    pub fn bpm_milli(&self) -> u64 {
        self.0.bpm_milli.load(Ordering::Relaxed)
    }

    /// Sets the tempo (BPM × 1000).
    pub fn set_bpm_milli(&self, bpm_milli: u64) {
        self.0.bpm_milli.store(bpm_milli, Ordering::Relaxed);
    }

    /// Beats per bar: never below 1, whatever a thread last stored (which
    /// value that was, no clause states).
    pub fn beats_per_bar(&self) -> (r: u32)
        ensures
            r >= 1,
    {
        at_least_one(self.0.beats_per_bar.load(Ordering::Relaxed))
    }

    /// Sets the beats per bar (0 is stored as 1).
    pub fn set_beats_per_bar(&self, n: u32) {
        self.0.beats_per_bar.store(at_least_one(n), Ordering::Relaxed);
    }

    /// Whether the clock is running: whatever a thread last stored (no clause states it).
    pub fn running(&self) -> bool {
        self.0.running.load(Ordering::Relaxed)
    }

    /// Starts or stops the clock.
    pub fn set_running(&self, on: bool) {
        self.0.running.store(on, Ordering::Relaxed);
    }

    /// Whether the click is audible: whatever a thread last stored (no clause states it).
    pub fn audible(&self) -> bool {
        self.0.audible.load(Ordering::Relaxed)
    }

    /// Mutes or unmutes the click.
    pub fn set_audible(&self, on: bool) {
        self.0.audible.store(on, Ordering::Relaxed);
    }

    /// Nanoseconds from the clock's creation to `t` (clamped at 0; the clock is
    /// created first). `Instant` and `Duration` are opaque here, so no clause states the value.
    pub fn rel_nanos(&self, t: Instant) -> i64 {
        nanos_to_i64(as_nanos(saturating_duration_since(t, self.0.base)))
    }

    /// Nanoseconds from the clock's creation to the beat-0 downbeat: whatever a
    /// thread last stored (no clause states it).
    pub fn anchor_nanos(&self) -> i64 {
        self.0.anchor_nanos.load(Ordering::Relaxed)
    }

    /// Moves the beat-0 downbeat to `nanos` from the clock's creation.
    pub fn set_anchor_nanos(&self, nanos: i64) {
        self.0.anchor_nanos.store(nanos, Ordering::Relaxed);
    }

    /// Makes `t` an exact downbeat (beat index 0) while keeping the tempo.
    pub fn anchor_to(&self, t: Instant) {
        let n = self.rel_nanos(t);
        self.set_anchor_nanos(n);
    }
}

} // verus!
