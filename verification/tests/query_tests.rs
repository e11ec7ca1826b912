use sceno::query::{build_query, clean_artist, clean_title, is_browser, library_filename, status_is_retryable, track_label, TrackQuery};

fn q() -> TrackQuery {
    TrackQuery {
        artist: "Fleetwood Mac".into(),
        title: "Dreams".into(),
        album: Some("Rumours".into()),
        duration: Some(257),
    }
}

#[test]
fn player_build_query_uses_explicit_artist() {
    let q = build_query(
        Some("Dreams".into()),
        vec!["Fleetwood Mac".into()],
        Some("Rumours".into()),
        Some(257),
        false,
    )
    .unwrap();
    assert_eq!(q.artist, "Fleetwood Mac");
    assert_eq!(q.title, "Dreams");
    assert_eq!(q.album.as_deref(), Some("Rumours"));
    assert_eq!(q.duration, Some(257));
}

#[test]
fn player_build_query_splits_artist_from_title_when_missing() {
    let q = build_query(Some("Daft Punk - Get Lucky".into()), vec![], None, None, false).unwrap();
    assert_eq!(q.artist, "Daft Punk");
    assert_eq!(q.title, "Get Lucky");
}

#[test]
fn player_build_query_keeps_title_when_no_separator() {
    let q = build_query(Some("Untitled".into()), vec![], None, None, true).unwrap();
    assert_eq!(q.artist, "");
    assert_eq!(q.title, "Untitled");
}

#[test]
fn player_build_query_ignores_blank_artists() {
    let q = build_query(Some("Song".into()), vec!["   ".into()], None, None, false).unwrap();
    assert_eq!(q.artist, "");
    assert_eq!(q.title, "Song");
}

#[test]
fn player_build_query_none_without_title() {
    assert!(build_query(None, vec!["Artist".into()], None, None, false).is_none());
    assert!(build_query(Some("  ".into()), vec![], None, None, true).is_none());
}

#[test]
fn player_build_query_drops_zero_duration_and_empty_album() {
    let q = build_query(Some("S".into()), vec!["A".into()], Some("".into()), Some(0), false).unwrap();
    assert_eq!(q.album, None);
    assert_eq!(q.duration, None);
}

#[test]
fn player_clean_artist_strips_vevo_and_topic() {
    assert_eq!(clean_artist("TimbalandVEVO"), "Timbaland");
    assert_eq!(clean_artist("EminemVEVO"), "Eminem");
    assert_eq!(clean_artist("OneRepublic - Topic"), "OneRepublic");
    assert_eq!(clean_artist("Slipknot"), "Slipknot");
}

#[test]
fn player_clean_title_removes_brackets_and_featuring() {
    assert_eq!(
        clean_title("Slipknot - Vermilion Pt. 2 [OFFICIAL VIDEO] [HD]"),
        "Slipknot - Vermilion Pt. 2"
    );
    assert_eq!(clean_title("Apologize ft. OneRepublic"), "Apologize");
    assert_eq!(clean_title("Song (Official Audio)"), "Song");
}

#[test]
fn player_clean_title_keeps_meaningful_parentheses() {
    assert_eq!(clean_title("Hurt (Acoustic)"), "Hurt (Acoustic)");
}

#[test]
fn player_build_query_browser_takes_artist_from_title() {
    let q = build_query(
        Some("Timbaland - Apologize ft. OneRepublic".into()),
        vec!["TimbalandVEVO".into()],
        None,
        Some(188),
        true,
    )
    .unwrap();
    assert_eq!(q.artist, "Timbaland");
    assert_eq!(q.title, "Apologize");
}

#[test]
fn player_build_query_browser_strips_decorations_and_prefix() {
    let q = build_query(
        Some("Slipknot - Vermilion Pt. 2 [OFFICIAL VIDEO] [HD]".into()),
        vec!["Slipknot".into()],
        None,
        Some(232),
        true,
    )
    .unwrap();
    assert_eq!(q.artist, "Slipknot");
    assert_eq!(q.title, "Vermilion Pt. 2");
}

#[test]
fn player_build_query_browser_ignores_label_artist() {
    let q = build_query(
        Some("Stone Sour - Through Glass".into()),
        vec!["Roadrunner Records".into()],
        None,
        Some(257),
        true,
    )
    .unwrap();
    assert_eq!(q.artist, "Stone Sour");
    assert_eq!(q.title, "Through Glass");
}

#[test]
fn player_build_query_native_keeps_dash_title_intact() {
    let q = build_query(
        Some("Numb - Remastered".into()),
        vec!["Linkin Park".into()],
        None,
        Some(187),
        false,
    )
    .unwrap();
    assert_eq!(q.artist, "Linkin Park");
    assert_eq!(q.title, "Numb - Remastered");
}

#[test]
fn player_is_browser_detects_common_browsers() {
    for id in ["Chrome", "Chromium", "Mozilla Firefox", "Brave"] {
        assert!(is_browser(id), "{id} should be a browser");
    }
    for id in ["Spotify", "mpv", "VLC media player"] {
        assert!(!is_browser(id), "{id} should not be a browser");
    }
}

#[test]
fn key_is_case_insensitive_and_stable() {
    let a = TrackQuery {
        artist: "ABBA".into(),
        title: "SOS".into(),
        album: None,
        duration: Some(200),
    };
    let b = TrackQuery {
        artist: "abba".into(),
        title: "sos".into(),
        album: None,
        duration: Some(200),
    };
    assert_eq!(a.key(), b.key());
    assert_eq!(a.key(), "abba|sos||200");
}

#[test]
fn library_filename_is_artist_dash_title() {
    assert_eq!(library_filename(&q()), "Fleetwood Mac - Dreams.lrc");
    let no_artist = TrackQuery {
        artist: "".into(),
        title: "Solo".into(),
        album: None,
        duration: None,
    };
    assert_eq!(library_filename(&no_artist), "Solo.lrc");
    let slashed = TrackQuery {
        artist: "AC/DC".into(),
        title: "T.N.T".into(),
        album: None,
        duration: None,
    };
    assert_eq!(library_filename(&slashed), "AC-DC - T.N.T.lrc");
}

#[test]
fn only_5xx_status_is_retryable() {
    assert!(!status_is_retryable(400));
    assert!(!status_is_retryable(403));
    assert!(!status_is_retryable(404));
    assert!(!status_is_retryable(429));
    assert!(status_is_retryable(500));
    assert!(status_is_retryable(503));
}

#[test]
fn key_keeps_album_and_unknown_duration_is_zero() {
    let q = TrackQuery {
        artist: "Fleetwood Mac".into(),
        title: "Dreams".into(),
        album: Some("Rumours".into()),
        duration: None,
    };
    assert_eq!(q.key(), "fleetwood mac|dreams|rumours|0");
}

#[test]
fn library_name_never_holds_a_path_separator() {
    let q = TrackQuery {
        artist: "  a\\b:c ".into(),
        title: "x/y".into(),
        album: None,
        duration: None,
    };
    let name = library_filename(&q);
    assert_eq!(name, "a-b-c - x-y.lrc");
    assert!(!name.contains('/') && !name.contains('\\') && !name.contains(':'));
}

#[test]
fn track_label_shows_artist_when_known() {
    assert_eq!(track_label(&q()), "\u{266a} Fleetwood Mac \u{2014} Dreams");
    let blank = TrackQuery {
        artist: "  ".into(),
        title: "Solo".into(),
        album: None,
        duration: None,
    };
    assert_eq!(track_label(&blank), "\u{266a} Solo");
}

#[test]
fn clean_title_squeezes_spaces_and_drops_dashes() {
    assert_eq!(clean_title("Song  [Live]  -  "), "Song");
    assert_eq!(clean_title("Track (feat. X)"), "Track (feat. X)");
    assert_eq!(clean_title("Intro featuring Someone"), "Intro");
}

#[test]
fn browser_title_without_both_halves_keeps_artist_blank() {
    let q = build_query(Some(" - Song".into()), vec!["Label".into()], None, None, true).unwrap();
    assert_eq!(q.artist, "Label");
    assert_eq!(q.title, "Song");
}
