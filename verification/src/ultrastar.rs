//! The text layer of UltraStar `.txt` karaoke files.
//!
//! Format: headers `#TITLE/#ARTIST/#BPM/#GAP`, then note lines
//! `<type> <startBeat> <length> <pitch> <syllable>` where type is `:` (normal),
//! `*` (golden), `F` (freestyle) or `R`/`G` (rap); `-` is a line break and `E`
//! ends the song. `#RELATIVE:YES` files (beat offsets relative to the previous
//! line) are out of scope and rejected.
//!
//! This module reads the headers and the note/break lines with their beats and
//! pitches as written; turning beats into seconds (with the `#BPM`/`#GAP`
//! decimals) happens in floating point outside the library.
use crate::query::split_once;
use crate::text::{
    ascii_lower, ascii_upper, chars_of, is_digit, is_ws, lines, parse_i64, parsed_i64, slice,
    split_lines, string_of, to_ascii_lower, to_ascii_upper, trim, trim_chars, trim_end,
    trim_end_chars, trim_start, trim_start_chars,
};
use vstd::prelude::*;

verus! {

/// `s` with each character ASCII-upper-cased.
pub open spec fn upper(s: Seq<char>) -> Seq<char> {
    Seq::new(s.len(), |i: int| ascii_upper(s[i]))
}

/// `s` with each character ASCII-lower-cased.
pub open spec fn lower(s: Seq<char>) -> Seq<char> {
    Seq::new(s.len(), |i: int| ascii_lower(s[i]))
}

/// `s` without its leading spaces (`' '` only).
pub open spec fn skip_spaces(s: Seq<char>) -> Seq<char>
    decreases s.len(),
{
    if s.len() > 0 && s[0] == ' ' {
        skip_spaces(s.drop_first())
    } else {
        s
    }
}

/// Length of the run of leading ASCII digits of `s`.
pub open spec fn digit_run(s: Seq<char>) -> int
    decreases s.len(),
{
    if s.len() > 0 && is_digit(s[0]) {
        1 + digit_run(s.drop_first())
    } else {
        0
    }
}

/// Length of the leading integer-looking prefix: an optional `-`, then digits.
pub open spec fn int_prefix_len(s: Seq<char>) -> int {
    if s.len() > 0 && s[0] == '-' {
        1 + digit_run(s.drop_first())
    } else {
        digit_run(s)
    }
}

/// A leading (optionally negative) integer after leading spaces, with the
/// unconsumed remainder (its separator space included).
pub open spec fn leading_int(s: Seq<char>) -> Option<(i64, Seq<char>)> {
    let t = skip_spaces(s);
    let end = int_prefix_len(t);
    if end == 0 {
        None
    } else {
        match parsed_i64(t.take(end)) {
            Some(n) => Some((n, t.skip(end))),
            None => None,
        }
    }
}

/// `<startBeat> <length> <pitch> <syllable…>` read from a note line's body; the
/// syllable is what follows the one separator space after the pitch.
pub open spec fn note_fields(body: Seq<char>) -> Option<(i64, i64, i64, Seq<char>)> {
    match leading_int(trim_start(body)) {
        None => None,
        Some((start, r1)) => match leading_int(r1) {
            None => None,
            Some((length, r2)) => match leading_int(r2) {
                None => None,
                Some((pitch, r3)) => Some(
                    (start, length, pitch, if r3.len() > 0 && r3[0] == ' ' {
                        r3.drop_first()
                    } else {
                        r3
                    }),
                ),
            },
        },
    }
}

/// The leading digit run of `s` is all digits, and stops before a non-digit.
pub proof fn lemma_digit_run(s: Seq<char>)
    ensures
        0 <= digit_run(s) <= s.len(),
        forall|k: int| 0 <= k < digit_run(s) ==> is_digit(#[trigger] s[k]),
        digit_run(s) < s.len() ==> !is_digit(s[digit_run(s)]),
    decreases s.len(),
{
    if s.len() > 0 && is_digit(s[0]) {
        lemma_digit_run(s.drop_first());
        assert forall|k: int| 0 <= k < digit_run(s) implies is_digit(#[trigger] s[k]) by {
            if k > 0 {
                assert(s[k] == s.drop_first()[k - 1]);
            }
        }
    }
}

/// Leading spaces skipped beforehand do not change what `skip_spaces` leaves.
pub proof fn lemma_skip_spaces(s: Seq<char>, i: int)
    requires
        0 <= i <= s.len(),
        forall|k: int| 0 <= k < i ==> #[trigger] s[k] == ' ',
    ensures
        skip_spaces(s.skip(i)) == skip_spaces(s),
    decreases i,
{
    if i > 0 {
        lemma_skip_spaces(s, i - 1);
        assert(s.skip(i - 1).drop_first() =~= s.skip(i));
    } else {
        assert(s.skip(0) =~= s);
    }
}

/// Reads a leading (optionally signed) integer after skipping spaces, returning
/// the value and the unconsumed remainder (its separator space included).
pub fn take_int(s: &Vec<char>) -> (r: Option<(i64, Vec<char>)>)
    ensures
        match r {
            Some((n, rest)) => leading_int(s@) == Some((n, rest@)),
            None => leading_int(s@) is None,
        },
{
    let mut i: usize = 0;
    while i < s.len() && s[i] == ' '
        invariant
            i <= s.len(),
            forall|k: int| 0 <= k < i ==> #[trigger] s@[k] == ' ',
        decreases s.len() - i,
    {
        i += 1;
    }
    let t = slice(s, i, s.len());
    proof {
        lemma_skip_spaces(s@, i as int);
        assert(s@.skip(i as int) =~= t@);
        assert(skip_spaces(t@) == t@);
    }
    let mut end: usize = 0;
    if t.len() > 0 && t[0] == '-' {
        end = 1;
    }
    let first = end;
    while end < t.len() && '0' <= t[end] && t[end] <= '9'
        invariant
            first <= end <= t.len(),
            forall|k: int| first <= k < end ==> is_digit(#[trigger] t@[k]),
        decreases t.len() - end,
    {
        end += 1;
    }
    proof {
        let u = t@.skip(first as int);
        lemma_digit_run(u);
        let dr = digit_run(u);
        if dr < end - first {
            assert(u[dr] == t@[first + dr]);
        }
        if end - first < dr {
            assert(u[end - first] == t@[end as int]);
        }
        if first == 1 {
            assert(t@.drop_first() =~= u);
        } else {
            assert(u =~= t@);
        }
        assert(int_prefix_len(t@) == end);
    }
    if end == 0 {
        return None;
    }
    match parse_i64(&slice(&t, 0, end)) {
        Some(n) => {
            assert(t@.subrange(0, end as int) =~= t@.take(end as int));
            assert(t@.subrange(end as int, t.len() as int) =~= t@.skip(end as int));
            Some((n, slice(&t, end, t.len())))
        },
        None => {
            assert(t@.subrange(0, end as int) =~= t@.take(end as int));
            None
        },
    }
}

/// Parses `<startBeat> <length> <pitch> <syllable…>` from a note line's body.
/// The syllable keeps its leading/internal spacing after the field separator.
pub fn parse_note_body(body: &str) -> (r: Option<(i64, i64, i64, String)>)
    ensures
        match r {
            Some((a, b, c, text)) => note_fields(body@) == Some((a, b, c, text@)),
            None => note_fields(body@) is None,
        },
{
    let b = trim_start_chars(&chars_of(body));
    let (start, r1) = match take_int(&b) {
        Some(x) => x,
        None => {
            return None;
        },
    };
    let (length, r2) = match take_int(&r1) {
        Some(x) => x,
        None => {
            return None;
        },
    };
    let (pitch, r3) = match take_int(&r2) {
        Some(x) => x,
        None => {
            return None;
        },
    };
    let text = if r3.len() > 0 && r3[0] == ' ' {
        slice(&r3, 1, r3.len())
    } else {
        r3
    };
    assert(r3@.len() > 0 && r3@[0] == ' ' ==> r3@.subrange(1, r3@.len() as int) =~= r3@.drop_first());
    Some((start, length, pitch, string_of(&text)))
}

/// Header values read so far; `relative` marks a rejected `#RELATIVE:YES` file.
#[verifier::ext_equal]
pub struct HeaderScan {
    pub artist: Seq<char>,
    pub title: Seq<char>,
    pub bpm: Option<Seq<char>>,
    pub gap: Option<Seq<char>>,
    pub relative: bool,
}

/// One line of the header pass: a `#KEY:value` line sets that header (the last
/// one wins); `#RELATIVE` with `yes`/`true` rejects the file.
pub open spec fn header_step(h: HeaderScan, raw: Seq<char>) -> HeaderScan {
    let line = trim_end(raw);
    if h.relative || line.len() == 0 || line[0] != '#' {
        h
    } else {
        match split_once(line.drop_first(), seq![':']) {
            None => h,
            Some((k, v)) => {
                let value = trim(v);
                let key = upper(trim(k));
                if key == "ARTIST"@ {
                    HeaderScan { artist: value, ..h }
                } else if key == "TITLE"@ {
                    HeaderScan { title: value, ..h }
                } else if key == "BPM"@ {
                    HeaderScan { bpm: Some(value), ..h }
                } else if key == "GAP"@ {
                    HeaderScan { gap: Some(value), ..h }
                } else if key == "RELATIVE"@ && (lower(value) == "yes"@ || lower(value) == "true"@) {
                    HeaderScan { relative: true, ..h }
                } else {
                    h
                }
            },
        }
    }
}

/// Header state after the lines `ls`.
pub open spec fn header_scan(ls: Seq<Seq<char>>) -> HeaderScan
    decreases ls.len(),
{
    if ls.len() == 0 {
        HeaderScan { artist: seq![], title: seq![], bpm: None, gap: None, relative: false }
    } else {
        header_step(header_scan(ls.drop_last()), ls.last())
    }
}

/// A note or a line break, as written.
#[verifier::ext_equal]
pub struct EventScan {
    /// `(startBeat, length, pitch, syllable, golden)` per note line.
    pub notes: Seq<(i64, i64, i64, Seq<char>, bool)>,
    /// Beat of each `-` line break.
    pub breaks: Seq<i64>,
    /// An `E` line was met.
    pub ended: bool,
}

/// A line's type letter marks a sung note.
pub open spec fn is_note_kind(c: char) -> bool {
    c == ':' || c == '*' || c == 'F' || c == 'R' || c == 'G'
}

/// One line of the note pass.
pub open spec fn event_step(e: EventScan, raw: Seq<char>) -> EventScan {
    let line = trim_end(raw);
    if e.ended || line.len() == 0 {
        e
    } else {
        let kind = line[0];
        let body = line.drop_first();
        if is_note_kind(kind) {
            match note_fields(body) {
                Some((start, length, pitch, text)) => EventScan {
                    notes: e.notes.push((start, length, pitch, text, kind == '*')),
                    ..e
                },
                None => e,
            }
        } else if kind == '-' {
            match leading_int(trim_start(body)) {
                Some((beat, _)) => EventScan { breaks: e.breaks.push(beat), ..e },
                None => e,
            }
        } else if kind == 'E' {
            EventScan { ended: true, ..e }
        } else {
            e
        }
    }
}

/// Before the `E` line, a line of type `:` (normal), `*` (golden), `F`
/// (freestyle), `R` or `G` (rap) whose body reads as a note adds exactly that
/// note, golden for `*`, and changes nothing else.
pub proof fn lemma_note_line_adds_note(e: EventScan, k: char, body: Seq<char>)
    requires
        k == ':' || k == '*' || k == 'F' || k == 'R' || k == 'G',
        !e.ended,
        body.len() == 0 || !is_ws(body.last()),
        note_fields(body) is Some,
    ensures
        ({
            let (a, b, c, t) = note_fields(body)->0;
            &&& event_step(e, seq![k] + body).notes == e.notes.push((a, b, c, t, k == '*'))
            &&& event_step(e, seq![k] + body).breaks == e.breaks
            &&& !event_step(e, seq![k] + body).ended
        }),
{
    let line = seq![k] + body;
    assert(line.last() == if body.len() == 0 {
        k
    } else {
        body.last()
    });
    assert(!is_ws(k));
    assert(trim_end(line) == line);
    assert(line[0] == k);
    assert(line.drop_first() =~= body);
}

/// Note-pass state after the lines `ls`.
pub open spec fn event_scan(ls: Seq<Seq<char>>) -> EventScan
    decreases ls.len(),
{
    if ls.len() == 0 {
        EventScan { notes: seq![], breaks: seq![], ended: false }
    } else {
        event_step(event_scan(ls.drop_last()), ls.last())
    }
}

/// The headers of an UltraStar file. The numeric headers are kept as written
/// (their last occurrence), for decimal parsing by the caller.
#[derive(Debug, Clone)]
pub struct UltraStarHeaders {
    pub artist: String,
    pub title: String,
    pub bpm: Option<String>,
    pub gap: Option<String>,
}

/// One sung note as written: beats, pitch in half-steps from C4, the syllable.
#[derive(Debug, Clone)]
pub struct NoteLine {
    pub start_beat: i64,
    pub length: i64,
    pub pitch: i64,
    pub text: String,
    pub golden: bool,
}

/// The notes and line breaks of an UltraStar file, up to its `E` line.
#[derive(Debug, Clone)]
pub struct UltraStarBody {
    pub notes: Vec<NoteLine>,
    /// Beat at which each `-` line break occurs.
    pub breaks: Vec<i64>,
}

/// ASCII upper-casing of each character.
pub fn upper_chars(s: &Vec<char>) -> (r: Vec<char>)
    ensures
        r@ == upper(s@),
{
    let mut r: Vec<char> = Vec::new();
    let mut k: usize = 0;
    while k < s.len()
        invariant
            k <= s.len(),
            r@ == Seq::new(k as nat, |i: int| ascii_upper(s@[i])),
        decreases s.len() - k,
    {
        r.push(to_ascii_upper(s[k]));
        k += 1;
        assert(r@ =~= Seq::new(k as nat, |i: int| ascii_upper(s@[i])));
    }
    r
}

/// ASCII lower-casing of each character.
pub fn lower_chars(s: &Vec<char>) -> (r: Vec<char>)
    ensures
        r@ == lower(s@),
{
    let mut r: Vec<char> = Vec::new();
    let mut k: usize = 0;
    while k < s.len()
        invariant
            k <= s.len(),
            r@ == Seq::new(k as nat, |i: int| ascii_lower(s@[i])),
        decreases s.len() - k,
    {
        r.push(to_ascii_lower(s[k]));
        k += 1;
        assert(r@ =~= Seq::new(k as nat, |i: int| ascii_lower(s@[i])));
    }
    r
}

/// Whether two character vectors are equal.
pub fn vec_eq(a: &Vec<char>, b: &Vec<char>) -> (r: bool)
    ensures
        r == (a@ == b@),
{
    if a.len() != b.len() {
        return false;
    }
    let mut k: usize = 0;
    while k < a.len()
        invariant
            k <= a.len() == b.len(),
            forall|i: int| 0 <= i < k ==> a@[i] == b@[i],
        decreases a.len() - k,
    {
        if a[k] != b[k] {
            return false;
        }
        k += 1;
    }
    assert(a@ =~= b@);
    true
}

/// Reads the header lines of an UltraStar file. `None` for a `#RELATIVE:YES` file.
pub fn header_fields(input: &str) -> (r: Option<UltraStarHeaders>)
    ensures
        ({
            let h = header_scan(lines(input@));
            match r {
                Some(u) => !h.relative && u.artist@ == h.artist && u.title@ == h.title
                    && crate::query::opt_chars(u.bpm) == h.bpm && crate::query::opt_chars(u.gap) == h.gap,
                None => h.relative,
            }
        }),
{
    let ls = split_lines(&chars_of(input));
    let ghost all = lines(input@);
    let mut artist: Vec<char> = Vec::new();
    let mut title: Vec<char> = Vec::new();
    let mut bpm: Option<Vec<char>> = None;
    let mut gap: Option<Vec<char>> = None;
    let colon = chars_of(":");
    let k_artist = chars_of("ARTIST");
    let k_title = chars_of("TITLE");
    let k_bpm = chars_of("BPM");
    let k_gap = chars_of("GAP");
    let k_relative = chars_of("RELATIVE");
    let v_yes = chars_of("yes");
    let v_true = chars_of("true");
    proof {
        reveal_strlit(":");
    }
    let mut i: usize = 0;
    assert(all.take(0) =~= Seq::<Seq<char>>::empty());
    while i < ls.len()
        invariant
            i <= ls.len() == all.len(),
            all == lines(input@),
            forall|j: int| 0 <= j < ls.len() ==> #[trigger] ls[j]@ == all[j],
            colon@ == seq![':'],
            k_artist@ == "ARTIST"@,
            k_title@ == "TITLE"@,
            k_bpm@ == "BPM"@,
            k_gap@ == "GAP"@,
            k_relative@ == "RELATIVE"@,
            v_yes@ == "yes"@,
            v_true@ == "true"@,
            header_scan(all.take(i as int)) == (HeaderScan {
                artist: artist@,
                title: title@,
                bpm: match bpm {
                    Some(b) => Some(b@),
                    None => None,
                },
                gap: match gap {
                    Some(g) => Some(g@),
                    None => None,
                },
                relative: false,
            }),
        decreases ls.len() - i,
    {
        let ghost before = header_scan(all.take(i as int));
        assert(all.take(i + 1).drop_last() =~= all.take(i as int));
        assert(all.take(i + 1).last() == ls[i as int]@);
        let line = trim_end_chars(&ls[i]);
        if line.len() > 0 && line[0] == '#' {
            let rest = slice(&line, 1, line.len());
            assert(rest@ =~= line@.drop_first());
            match crate::query::split_once_chars(&rest, &colon) {
                Some((k, v)) => {
                    let value = trim_chars(&v);
                    let key = upper_chars(&trim_chars(&k));
                    if vec_eq(&key, &k_artist) {
                        artist = value;
                    } else if vec_eq(&key, &k_title) {
                        title = value;
                    } else if vec_eq(&key, &k_bpm) {
                        bpm = Some(value);
                    } else if vec_eq(&key, &k_gap) {
                        gap = Some(value);
                    } else if vec_eq(&key, &k_relative) {
                        let lv = lower_chars(&value);
                        if vec_eq(&lv, &v_yes) || vec_eq(&lv, &v_true) {
                            proof {
                                lemma_relative_sticks(all, i as int + 1);
                            }
                            return None;
                        }
                    }
                },
                None => {},
            }
        }
        i += 1;
    }
    assert(all.take(ls.len() as int) =~= all);
    Some(
        UltraStarHeaders {
            artist: string_of(&artist),
            title: string_of(&title),
            bpm: match bpm {
                Some(b) => Some(string_of(&b)),
                None => None,
            },
            gap: match gap {
                Some(g) => Some(string_of(&g)),
                None => None,
            },
        },
    )
}

/// Once a file is rejected as relative, later lines keep it rejected.
pub proof fn lemma_relative_sticks(ls: Seq<Seq<char>>, k: int)
    requires
        0 <= k <= ls.len(),
        header_scan(ls.take(k)).relative,
    ensures
        header_scan(ls).relative,
    decreases ls.len() - k,
{
    if k < ls.len() {
        assert(ls.take(k + 1).drop_last() =~= ls.take(k));
        lemma_relative_sticks(ls, k + 1);
    } else {
        assert(ls.take(k) =~= ls);
    }
}

/// Reads the note and line-break lines of an UltraStar file, up to its `E` line.
pub fn ultrastar_body(input: &str) -> (r: UltraStarBody)
    ensures
        ({
            let e = event_scan(lines(input@));
            &&& r.notes.len() == e.notes.len()
            &&& forall|j: int|
                0 <= j < r.notes.len() ==> ({
                    let n = #[trigger] r.notes[j];
                    e.notes[j] == (n.start_beat, n.length, n.pitch, n.text@, n.golden)
                })
            &&& r.breaks@ == e.breaks
        }),
{
    let ls = split_lines(&chars_of(input));
    let ghost all = lines(input@);
    let mut notes: Vec<NoteLine> = Vec::new();
    let mut breaks: Vec<i64> = Vec::new();
    let ghost mut note_model: Seq<(i64, i64, i64, Seq<char>, bool)> = seq![];
    let mut i: usize = 0;
    assert(all.take(0) =~= Seq::<Seq<char>>::empty());
    while i < ls.len()
        invariant
            i <= ls.len() == all.len(),
            all == lines(input@),
            forall|j: int| 0 <= j < ls.len() ==> #[trigger] ls[j]@ == all[j],
            notes.len() == note_model.len(),
            forall|j: int|
                0 <= j < notes.len() ==> ({
                    let n = #[trigger] notes[j];
                    note_model[j] == (n.start_beat, n.length, n.pitch, n.text@, n.golden)
                }),
            event_scan(all.take(i as int)) == (EventScan {
                notes: note_model,
                breaks: breaks@,
                ended: false,
            }),
        decreases ls.len() - i,
    {
        assert(all.take(i + 1).drop_last() =~= all.take(i as int));
        assert(all.take(i + 1).last() == ls[i as int]@);
        let line = trim_end_chars(&ls[i]);
        if line.len() > 0 {
            let kind = line[0];
            let body = slice(&line, 1, line.len());
            assert(body@ =~= line@.drop_first());
            if kind == ':' || kind == '*' || kind == 'F' || kind == 'R' || kind == 'G' {
                let bs = string_of(&body);
                match parse_note_body(bs.as_str()) {
                    Some((start_beat, length, pitch, text)) => {
                        proof {
                            note_model = note_model.push((start_beat, length, pitch, text@, kind == '*'));
                        }
                        notes.push(NoteLine { start_beat, length, pitch, text, golden: kind == '*' });
                    },
                    None => {},
                }
            } else if kind == '-' {
                match take_int(&trim_start_chars(&body)) {
                    Some((beat, _)) => {
                        breaks.push(beat);
                    },
                    None => {},
                }
            } else if kind == 'E' {
                proof {
                    lemma_end_sticks(all, i as int + 1);
                    assert(all.take(ls.len() as int) =~= all);
                }
                return UltraStarBody { notes, breaks };
            }
        }
        i += 1;
    }
    assert(all.take(ls.len() as int) =~= all);
    UltraStarBody { notes, breaks }
}

/// Lines after the `E` line change nothing.
pub proof fn lemma_end_sticks(ls: Seq<Seq<char>>, k: int)
    requires
        0 <= k <= ls.len(),
        event_scan(ls.take(k)).ended,
    ensures
        event_scan(ls) == event_scan(ls.take(k)),
    decreases ls.len() - k,
{
    if k < ls.len() {
        assert(ls.take(k + 1).drop_last() =~= ls.take(k));
        lemma_end_sticks(ls, k + 1);
    } else {
        assert(ls.take(k) =~= ls);
    }
}

} // verus!
