use sceno::library::{
    kind_of_extension, identity_from_stem, identity_from_tags, match_track, norm_key, normalize, ultrastar_headers, Kind,
    LibraryEntry,
};
use sceno::query::TrackQuery;
use std::path::PathBuf;

fn query(artist: &str, title: &str) -> TrackQuery {
    TrackQuery {
        artist: artist.into(),
        title: title.into(),
        album: None,
        duration: None,
    }
}

fn entry(artist: &str, title: &str, file: &str, kind: Kind) -> LibraryEntry {
    LibraryEntry::new(artist.into(), title.into(), PathBuf::from(file), kind)
}

#[test]
fn normalize_strips_case_and_punctuation() {
    assert_eq!(normalize("Beyoncé!"), "beyonc");
    assert_eq!(normalize("AC/DC"), "acdc");
    assert_eq!(norm_key("Daft Punk", "Get Lucky"), "daftpunk|getlucky");
}

#[test]
fn matches_title_only_when_artist_differs() {
    let entries = vec![entry("Real Artist", "Lonely Title", "Real Artist - Lonely Title.lrc", Kind::Lrc)];
    let m = match_track(&entries, &query("Some Label", "Lonely Title")).unwrap();
    assert_eq!(m.title, "Lonely Title");
}

#[test]
fn exact_match_prefers_ultrastar() {
    let entries = vec![
        entry("Test Artist", "Test Song", "Test Artist - Test Song.lrc", Kind::Lrc),
        entry("Test Artist", "Test Song", "song.txt", Kind::UltraStar),
    ];
    let m = match_track(&entries, &query("test artist", "test song")).unwrap();
    assert_eq!(m.kind, Kind::UltraStar);
    assert_eq!(m.path, PathBuf::from("song.txt"));
    assert!(match_track(&entries, &query("Test  Artist!", "Test-Song")).is_some());
}

#[test]
fn exact_match_beats_title_only_match() {
    let entries = vec![
        entry("Other", "Same Title", "a.txt", Kind::UltraStar),
        entry("Wanted", "Same Title", "b.lrc", Kind::Lrc),
    ];
    let m = match_track(&entries, &query("Wanted", "Same Title")).unwrap();
    assert_eq!(m.path, PathBuf::from("b.lrc"));
}

#[test]
fn no_match_is_none() {
    let entries = vec![entry("A", "B", "a.lrc", Kind::Lrc)];
    assert!(match_track(&entries, &query("C", "D")).is_none());
    assert!(match_track(&[], &query("A", "B")).is_none());
}

#[test]
fn ultrastar_headers_read_artist_and_title() {
    let text = "#ARTIST:Test Artist\n#TITLE:Test Song\n#BPM:120\n: 0 4 0 hi\nE\n";
    assert_eq!(
        ultrastar_headers(text),
        Some(("Test Artist".to_string(), "Test Song".to_string()))
    );
    assert_eq!(ultrastar_headers("#ARTIST:Only\n: 0 1 0 x\n"), None);
}

#[test]
fn lrc_identity_from_stem_and_tags() {
    assert_eq!(
        identity_from_stem("Test Artist - Test Song"),
        Some(("Test Artist".to_string(), "Test Song".to_string()))
    );
    assert_eq!(identity_from_stem("NoSeparator"), None);
    let text = "[ar:Tag Artist]\n[ti:Tag Song]\n[00:01.00]hi\n";
    assert_eq!(
        identity_from_tags("whatever", text),
        Some(("Tag Artist".to_string(), "Tag Song".to_string()))
    );
}

#[test]
fn lyrics_files_are_known_by_extension() {
    assert_eq!(kind_of_extension("txt"), Some(Kind::UltraStar));
    assert_eq!(kind_of_extension("TXT"), Some(Kind::UltraStar));
    assert_eq!(kind_of_extension("Lrc"), Some(Kind::Lrc));
    assert_eq!(kind_of_extension("mp3"), None);
    assert_eq!(kind_of_extension("txtx"), None);
}

#[test]
fn normalizing_twice_changes_nothing() {
    for s in ["Beyoncé!", "AC/DC", "  Daft  Punk ", "ÀÉÎ 123"] {
        let once = normalize(s);
        assert_eq!(normalize(&once), once);
        assert!(once.chars().all(|c| c.is_ascii_lowercase() || c.is_ascii_digit()));
    }
}
