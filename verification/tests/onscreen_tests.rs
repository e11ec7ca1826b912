use sceno::onscreen::{build_query, frame_len, Captions, Mode, Position};

#[test]
fn onscreen_query_trusts_player_fields() {
    let q = build_query(
        Some("  Song [Official Video] ".into()),
        vec!["".into(), " Artist ".into()],
        Some(" Album ".into()),
        Some(200),
    )
    .unwrap();
    assert_eq!(q.artist, "Artist");
    assert_eq!(q.title, "Song [Official Video]");
    assert_eq!(q.album.as_deref(), Some("Album"));
    assert_eq!(q.duration, Some(200));
}

#[test]
fn onscreen_query_splits_title_without_artist() {
    let q = build_query(Some("Daft Punk - Get Lucky".into()), vec![], None, Some(0)).unwrap();
    assert_eq!(q.artist, "Daft Punk");
    assert_eq!(q.title, "Get Lucky");
    assert_eq!(q.duration, None);
    assert!(build_query(Some("   ".into()), vec![], None, None).is_none());
    assert!(build_query(None, vec!["A".into()], None, None).is_none());
}

#[test]
fn position_margins_and_modes() {
    assert_eq!(Position::Bottom.margin(), (0, 0, 40, 0));
    assert_eq!(Position::Top.margin(), (40, 0, 0, 0));
    assert_eq!(Position::Top.index(), 1);
    assert_eq!(Mode::from_idx(Mode::Timeline.index()), Mode::Timeline);
    assert_eq!(Mode::from_idx(Mode::Live.index()), Mode::Live);
    assert_eq!(Mode::from_idx(7), Mode::Live);
}

#[test]
fn live_captions_show_only_while_enabled() {
    let mut c = Captions::new(true, Mode::Live);
    c.caption_received("hello".into());
    assert_eq!(c.caption(), "hello");
    assert!(!c.set_enabled(false));
    assert_eq!(c.caption(), "");
    c.caption_received("while off".into());
    assert_eq!(c.caption(), "");
    assert!(!c.set_enabled(true));
    assert_eq!(c.caption(), "while off");
    c.clear_caption();
    assert_eq!(c.caption(), "");
    c.set_enabled(false);
    c.set_enabled(true);
    assert_eq!(c.caption(), "");
}

#[test]
fn timeline_mode_takes_timeline_captions() {
    let mut c = Captions::new(true, Mode::Live);
    c.caption_received("live".into());
    assert!(!c.set_mode(Mode::Timeline));
    assert_eq!(c.caption(), "");
    assert!(c.follows_timeline());
    c.show_timeline("cue".into());
    assert_eq!(c.caption(), "cue");
    c.caption_received("ignored".into());
    assert_eq!(c.caption(), "cue");
    c.clear_caption();
    assert_eq!(c.caption(), "cue");
    assert!(!c.set_enabled(false));
    c.show_timeline("hidden".into());
    assert_eq!(c.caption(), "");
    assert!(c.set_enabled(true));
    assert!(c.set_mode(Mode::Live));
    assert_eq!(c.caption(), "");
}

#[test]
fn frame_length_is_little_endian() {
    assert_eq!(frame_len([5, 0, 0, 0]), 5);
    assert_eq!(frame_len([0, 1, 0, 0]), 256);
    assert_eq!(frame_len([0x78, 0x56, 0x34, 0x12]), 0x1234_5678);
    assert_eq!(frame_len([255, 255, 255, 255]), u32::MAX);
}
