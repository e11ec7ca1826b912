use sceno::lrclib::{best_match, cache_file, Lookup, LookupAction, LookupEvent};
use sceno::query::TrackQuery;
use std::collections::hash_map::DefaultHasher;
use std::hash::{Hash, Hasher};

fn q() -> TrackQuery {
    TrackQuery {
        artist: "Fleetwood Mac".into(),
        title: "Dreams".into(),
        album: Some("Rumours".into()),
        duration: Some(257),
    }
}

fn distance(duration: f64, target: u64) -> i64 {
    (duration - target as f64).abs().round() as i64
}

#[test]
fn best_match_picks_closest_duration() {
    let ds = vec![Some(distance(300.0, 257)), Some(distance(258.0, 257)), Some(distance(200.0, 257))];
    assert_eq!(best_match(&ds), Some(1));
}

#[test]
fn best_match_skips_candidates_without_synced() {
    let ds = vec![None, Some(distance(400.0, 257))];
    assert_eq!(best_match(&ds), Some(1));
}

#[test]
fn best_match_none_when_no_synced() {
    let ds: Vec<Option<i64>> = vec![None];
    assert_eq!(best_match(&ds), None);
    assert_eq!(best_match(&Vec::new()), None);
}

#[test]
fn best_match_ties_go_to_the_first() {
    assert_eq!(best_match(&vec![None, Some(0), Some(0)]), Some(1));
    assert_eq!(best_match(&vec![Some(5), Some(3), Some(3)]), Some(1));
}

#[test]
fn lookup_returns_a_cache_hit_without_network() {
    let (mut l, first) = Lookup::new();
    assert_eq!(first, LookupAction::ReadCache);
    assert_eq!(
        l.next(LookupEvent::CacheRead(Some("[00:01.00]x".into()))),
        LookupAction::Done(Some("[00:01.00]x".into()))
    );
}

#[test]
fn lookup_saves_lyrics_from_the_exact_request() {
    let (mut l, _) = Lookup::new();
    assert_eq!(l.next(LookupEvent::CacheRead(Some(String::new()))), LookupAction::Get);
    let lyrics = "[00:15.00]Now here you go again".to_string();
    assert_eq!(
        l.next(LookupEvent::GetDone(Some((Some(lyrics.clone()), false)))),
        LookupAction::Save(lyrics.clone())
    );
    assert_eq!(l.next(LookupEvent::Saved), LookupAction::Done(Some(lyrics)));
}

#[test]
fn lookup_stops_on_instrumental_and_searches_otherwise() {
    let (mut l, _) = Lookup::new();
    l.next(LookupEvent::CacheRead(None));
    assert_eq!(l.next(LookupEvent::GetDone(Some((None, true)))), LookupAction::Done(None));

    let (mut l, _) = Lookup::new();
    l.next(LookupEvent::CacheRead(None));
    assert_eq!(l.next(LookupEvent::GetDone(Some((Some("   ".into()), false)))), LookupAction::Search);
    assert_eq!(l.next(LookupEvent::SearchDone(None)), LookupAction::Done(None));

    let (mut l, _) = Lookup::new();
    l.next(LookupEvent::CacheRead(None));
    assert_eq!(l.next(LookupEvent::GetDone(None)), LookupAction::Search);
    assert_eq!(
        l.next(LookupEvent::SearchDone(Some("[00:01.00]b".into()))),
        LookupAction::Save("[00:01.00]b".into())
    );
}

#[test]
fn lookup_ends_empty_on_an_unexpected_report() {
    let (mut l, _) = Lookup::new();
    assert_eq!(l.next(LookupEvent::Saved), LookupAction::Done(None));
    assert_eq!(l.next(LookupEvent::CacheRead(Some("x".into()))), LookupAction::Done(None));
}

#[test]
fn cache_file_is_hex_hash_of_key() {
    let mut h = DefaultHasher::new();
    q().key().hash(&mut h);
    let expected = format!("/cache/{:016x}.lrc", h.finish());
    assert_eq!(cache_file(Some("/cache"), &q()), Some(expected));
    assert_eq!(cache_file(None, &q()), None);
}

#[test]
fn cache_file_ignores_case_of_fields() {
    let mut shouted = q();
    shouted.artist = "FLEETWOOD MAC".into();
    assert_eq!(cache_file(Some("/c/"), &shouted), cache_file(Some("/c"), &q()));
}
