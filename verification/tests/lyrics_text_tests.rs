use sceno::lrc::{split_leading_tag, split_word_tokens, strip_word_tags, WordToken};
use sceno::ultrastar::{header_fields, parse_note_body, ultrastar_body};

const SAMPLE: &str = "#TITLE:Test Song\n\
#ARTIST:Test Artist\n\
#BPM:120\n\
#GAP:1000\n\
: 0 4 0 Hel\n\
: 4 4 2 lo\n\
* 8 8 7  world\n\
- 16\n\
: 16 4 -3 bye\n\
E\n";

#[test]
fn word_tags_are_removed_from_a_line() {
    assert_eq!(strip_word_tags("<00:01.00>hello <00:01.50>world"), "hello world");
    assert_eq!(strip_word_tags("just a line"), "just a line");
    assert_eq!(strip_word_tags("a > b"), "a > b");
    assert_eq!(strip_word_tags("<unclosed tail"), "");
}

#[test]
fn leading_tags_split_one_at_a_time() {
    assert_eq!(
        split_leading_tag("[00:10.00][00:40.00]  la la"),
        Some(("00:10.00".to_string(), "[00:40.00]  la la".to_string()))
    );
    assert_eq!(
        split_leading_tag("[00:40.00]  la la"),
        Some(("00:40.00".to_string(), "la la".to_string()))
    );
    assert_eq!(split_leading_tag("[ar:Some Artist]"), Some(("ar:Some Artist".to_string(), String::new())));
    assert_eq!(split_leading_tag("no tag"), None);
    assert_eq!(split_leading_tag("[unterminated"), None);
}

#[test]
fn ultrastar_headers_and_notes_are_read() {
    let h = header_fields(SAMPLE).unwrap();
    assert_eq!(h.artist, "Test Artist");
    assert_eq!(h.title, "Test Song");
    assert_eq!(h.bpm.as_deref(), Some("120"));
    assert_eq!(h.gap.as_deref(), Some("1000"));
    let body = ultrastar_body(SAMPLE);
    assert_eq!(body.notes.len(), 4);
    assert_eq!(body.breaks, vec![16]);
    let n0 = &body.notes[0];
    assert_eq!((n0.start_beat, n0.length, n0.pitch, n0.text.as_str(), n0.golden), (0, 4, 0, "Hel", false));
    let n2 = &body.notes[2];
    assert!(n2.golden);
    assert_eq!(n2.pitch, 7);
    assert_eq!(n2.text, " world");
    assert_eq!(body.notes[3].pitch, -3);
}

#[test]
fn ultrastar_relative_mode_is_rejected() {
    let txt = "#TITLE:T\n#ARTIST:A\n#BPM:120\n#RELATIVE:YES\n: 0 1 0 x\nE\n";
    assert!(header_fields(txt).is_none());
    assert!(header_fields("#RELATIVE:true\n").is_none());
    assert!(header_fields("#RELATIVE:no\n").is_some());
}

#[test]
fn ultrastar_comma_bpm_is_kept_as_written() {
    let txt = "#TITLE:T\n#ARTIST:A\n#BPM:122,5\n: 0 1 0 x\nE\n";
    assert_eq!(header_fields(txt).unwrap().bpm.as_deref(), Some("122,5"));
}

#[test]
fn ultrastar_missing_bpm_or_notes() {
    assert_eq!(header_fields("#TITLE:T\n#ARTIST:A\n: 0 1 0 x\n").unwrap().bpm, None);
    assert!(ultrastar_body("#TITLE:T\n#ARTIST:A\n#BPM:120\nE\n").notes.is_empty());
    assert!(ultrastar_body("").notes.is_empty());
}

#[test]
fn ultrastar_reading_stops_at_end_marker() {
    let txt = "#BPM:120\n#TITLE:T\n#ARTIST:A\n: 0 1 0 a\nE\n: 4 1 0 ignored\n";
    assert_eq!(ultrastar_body(txt).notes.len(), 1);
}

#[test]
fn note_body_fields() {
    assert_eq!(parse_note_body(" 8 8 7  world"), Some((8, 8, 7, " world".to_string())));
    assert_eq!(parse_note_body("16 4 -3 bye"), Some((16, 4, -3, "bye".to_string())));
    assert_eq!(parse_note_body("1 2"), None);
    assert_eq!(parse_note_body("x 1 2 a"), None);
}

#[test]
fn word_tokens_keep_text_and_tags_in_order() {
    assert_eq!(
        split_word_tokens("<00:01.00>hello <00:01.50>world"),
        vec![
            WordToken::Tag { contents: "00:01.00".into(), closed: true },
            WordToken::Text("hello ".into()),
            WordToken::Tag { contents: "00:01.50".into(), closed: true },
            WordToken::Text("world".into()),
        ]
    );
    assert_eq!(
        split_word_tokens("a <b"),
        vec![WordToken::Text("a ".into()), WordToken::Tag { contents: "b".into(), closed: false }]
    );
    assert!(split_word_tokens("").is_empty());
}

#[test]
fn stripping_word_tags_twice_changes_nothing() {
    for s in ["<00:01.00>hello <00:01.50>world", "a <b> c", "<<x>>y", "plain"] {
        let once = strip_word_tags(s);
        assert!(!once.contains('<'));
        assert_eq!(strip_word_tags(&once), once);
    }
}
