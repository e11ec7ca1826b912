use sceno::nowplaying::{now_playing_script, parse_now_playing_line, split_chars};

#[test]
fn script_is_guarded_against_autolaunch() {
    let s = now_playing_script("Music");
    assert!(s.contains("is running"));
    assert!(s.contains("player state is not stopped"));
}

#[test]
fn script_names_the_app_twice() {
    let s = now_playing_script("Spotify");
    assert!(s.starts_with("if application \"Spotify\" is running then\ntell application \"Spotify\"\n"));
    assert!(s.ends_with("return \"\""));
}

#[test]
fn music_line_fields() {
    let l = parse_now_playing_line("Get Lucky|Daft Punk|Random Access Memories|248|12.5|playing", "Music").unwrap();
    assert_eq!(l.title, "Get Lucky");
    assert_eq!(l.artist, "Daft Punk");
    assert_eq!(l.album, "Random Access Memories");
    assert_eq!(l.duration, "248");
    assert_eq!(l.position, "12.5");
    assert!(!l.paused);
    assert!(!l.duration_in_ms);
}

#[test]
fn spotify_reports_milliseconds() {
    let l = parse_now_playing_line("Get Lucky|Daft Punk|RAM|248000|0.0|playing", "Spotify").unwrap();
    assert!(l.duration_in_ms);
    assert_eq!(l.duration, "248000");
}

#[test]
fn comma_decimals_become_points() {
    let l = parse_now_playing_line("Last Resort|Papa Roach|Infest|199,807|59,632|playing", "Music").unwrap();
    assert_eq!(l.duration, "199.807");
    assert_eq!(l.position, "59.632");
}

#[test]
fn paused_state_is_flagged() {
    assert!(parse_now_playing_line("Song|Artist|Album|100|3.0|paused", "Music").unwrap().paused);
    assert!(!parse_now_playing_line("Song|Artist|Album|100|3.0|PLAYING", "Music").unwrap().paused);
}

#[test]
fn empty_or_short_output_is_none() {
    assert!(parse_now_playing_line("", "Music").is_none());
    assert!(parse_now_playing_line("   \n", "Spotify").is_none());
    assert!(parse_now_playing_line("Song|Artist", "Music").is_none());
}

#[test]
fn fields_are_trimmed_and_empty_artist_kept() {
    let l = parse_now_playing_line("  Untitled || Album |10|0.0|playing\n", "Music").unwrap();
    assert_eq!(l.title, "Untitled");
    assert_eq!(l.artist, "");
    assert_eq!(l.album, "Album");
}

#[test]
fn split_keeps_empty_pieces() {
    let v: Vec<char> = "a||b".chars().collect();
    let parts: Vec<String> = split_chars(&v, '|').iter().map(|p| p.iter().collect()).collect();
    assert_eq!(parts, vec!["a", "", "b"]);
    assert_eq!(split_chars(&Vec::new(), '|').len(), 1);
}
