use sceno::tracker::{after_attempt, usable_synced, Attempt, Emit, NextStep, Tracker, FETCH_RETRIES, HTTP_RETRIES};

fn key(s: &str) -> Option<String> {
    Some(s.to_string())
}

#[test]
fn new_track_fetches_and_emits_track() {
    let mut t = Tracker::new();
    assert!(t.observe(key("a|b||1")));
    assert_eq!(t.finish(true), Emit::Track);
    // Same track, lyrics found: position updates only, no fetch.
    assert!(!t.observe(key("a|b||1")));
    assert_eq!(t.finish(false), Emit::Sync);
}

#[test]
fn empty_track_is_retried_a_bounded_number_of_times() {
    let mut t = Tracker::new();
    let mut fetches = 0;
    for _ in 0..10 {
        if t.observe(key("k")) {
            fetches += 1;
        }
        t.finish(false);
    }
    assert_eq!(fetches, 1 + FETCH_RETRIES);
}

#[test]
fn failed_first_fetch_still_emits_the_track() {
    let mut t = Tracker::new();
    assert!(t.observe(key("k")));
    assert_eq!(t.finish(false), Emit::Track);
    // A failed retry emits only a position update.
    assert!(t.observe(key("k")));
    assert_eq!(t.finish(false), Emit::Sync);
}

#[test]
fn retry_that_finds_lyrics_emits_track_and_stops() {
    let mut t = Tracker::new();
    t.observe(key("k"));
    t.finish(false);
    assert!(t.observe(key("k")));
    assert_eq!(t.finish(true), Emit::Track);
    assert!(!t.observe(key("k")));
}

#[test]
fn track_change_resets_retries() {
    let mut t = Tracker::new();
    for _ in 0..6 {
        t.observe(key("one"));
        t.finish(false);
    }
    assert!(!t.observe(key("one")));
    t.finish(false);
    assert!(t.observe(key("two")));
    assert_eq!(t.finish(false), Emit::Track);
}

#[test]
fn losing_the_track_counts_as_a_change() {
    let mut t = Tracker::new();
    t.observe(key("one"));
    t.finish(true);
    assert!(t.observe(None));
    assert_eq!(t.finish(false), Emit::Track);
}

#[test]
fn http_attempts_retry_only_transient_failures() {
    assert_eq!(after_attempt(0, Attempt::Response), NextStep::ReadBody);
    assert_eq!(after_attempt(0, Attempt::Status(503)), NextStep::Retry);
    assert_eq!(after_attempt(0, Attempt::Status(404)), NextStep::GiveUp);
    assert_eq!(after_attempt(0, Attempt::Status(429)), NextStep::GiveUp);
    assert_eq!(after_attempt(1, Attempt::Transport), NextStep::Retry);
    assert_eq!(after_attempt(HTTP_RETRIES, Attempt::Transport), NextStep::GiveUp);
    assert_eq!(after_attempt(HTTP_RETRIES, Attempt::Status(500)), NextStep::GiveUp);
}

#[test]
fn blank_synced_lyrics_are_not_usable() {
    assert_eq!(usable_synced(&Some("   ".to_string())), None);
    assert_eq!(usable_synced(&None), None);
    assert_eq!(
        usable_synced(&Some("[00:15.00]Now here you go again".to_string())),
        Some("[00:15.00]Now here you go again".to_string())
    );
}
