//! A local folder of lyrics files (`.txt` UltraStar, `.lrc` LRCLIB), matched to
//! the now-playing track by a normalized artist/title key.
//!
//! Reading the folder and the files is I/O; this module identifies a file from
//! its name or text and picks the entry that matches a query.
use crate::query::{split_once, TrackQuery};
use crate::ultrastar::{upper, upper_chars, vec_eq};
use crate::text::{
    ascii_lower, ascii_upper, chars_of, find, is_first_match, lines, matches_at, slice,
    split_lines, string_of, match_at, to_ascii_lower, to_ascii_upper, trim, trim_chars, trim_end,
    trim_end_chars,
};
use std::path::PathBuf;
use vstd::prelude::*;

verus! {

/// std's `PathBuf`, carried through opaque.
#[verifier::external_type_specification]
#[verifier::external_body]
pub struct ExPathBuf(PathBuf);

/// std's `PathBuf::clone`: nothing is claimed of the copy.
pub assume_specification[ <PathBuf as Clone>::clone ](p: &PathBuf) -> PathBuf;

/// Which kind of lyrics file an entry points at.
#[derive(Debug, Clone, Copy, PartialEq, Eq, Structural)]
pub enum Kind {
    /// UltraStar `.txt`: carries per-syllable pitch (drives the karaoke view).
    UltraStar,
    /// LRCLIB `.lrc`: caption-only timing.
    Lrc,
}

/// An indexed lyrics file in the library.
#[derive(Debug, Clone)]
pub struct LibraryEntry {
    pub artist: String,
    pub title: String,
    pub path: PathBuf,
    pub kind: Kind,
    /// Normalized `artist|title` match key.
    key: String,
}

/// An ASCII letter or digit.
pub open spec fn is_ascii_alnum(c: char) -> bool {
    ('0' <= c && c <= '9') || ('a' <= c && c <= 'z') || ('A' <= c && c <= 'Z')
}

/// `s` reduced to its ASCII letters and digits, lower-cased.
pub open spec fn normalized(s: Seq<char>) -> Seq<char>
    decreases s.len(),
{
    if s.len() == 0 {
        seq![]
    } else if is_ascii_alnum(s.last()) {
        normalized(s.drop_last()).push(ascii_lower(s.last()))
    } else {
        normalized(s.drop_last())
    }
}

/// A normalized string holds only lower-case ASCII letters and digits, and
/// normalizing it again changes nothing.
pub proof fn lemma_normalized_stable(s: Seq<char>)
    ensures
        forall|k: int|
            0 <= k < normalized(s).len() ==> {
                let c = #[trigger] normalized(s)[k];
                ('0' <= c && c <= '9') || ('a' <= c && c <= 'z')
            },
        normalized(normalized(s)) == normalized(s),
    decreases s.len(),
{
    if s.len() > 0 {
        let p = s.drop_last();
        lemma_normalized_stable(p);
        let n = normalized(s);
        assert forall|k: int| 0 <= k < n.len() implies {
            let c = #[trigger] n[k];
            ('0' <= c && c <= '9') || ('a' <= c && c <= 'z')
        } by {
            if k < normalized(p).len() {
                assert(n[k] == normalized(p)[k]);
            }
        }
        if is_ascii_alnum(s.last()) {
            let c = ascii_lower(s.last());
            assert(is_ascii_alnum(c));
            assert(ascii_lower(c) == c);
            assert(n.drop_last() =~= normalized(p));
        }
    }
}

/// Normalizing keeps each ASCII digit and lower-case letter, lower-cases each
/// upper-case ASCII letter, and drops every other character, in order.
pub proof fn lemma_normalized_step(s: Seq<char>, c: char)
    ensures
        '0' <= c <= '9' ==> normalized(s.push(c)) == normalized(s).push(c),
        'a' <= c <= 'z' ==> normalized(s.push(c)) == normalized(s).push(c),
        'A' <= c <= 'Z' ==> normalized(s.push(c)) == normalized(s).push(((c as u32) + 32) as char),
        !('0' <= c <= '9' || 'a' <= c <= 'z' || 'A' <= c <= 'Z') ==> normalized(s.push(c))
            == normalized(s),
{
    assert(s.push(c).drop_last() =~= s);
}

/// The match key of an artist and a title.
pub open spec fn match_key(artist: Seq<char>, title: Seq<char>) -> Seq<char> {
    normalized(artist) + seq!['|'] + normalized(title)
}

impl LibraryEntry {
    /// The entry's normalized `artist|title` match key.
    pub closed spec fn match_key(self) -> Seq<char> {
        self.key@
    }

    /// The entry's artist.
    pub closed spec fn artist_chars(self) -> Seq<char> {
        self.artist@
    }

    /// The entry's title.
    pub closed spec fn title_chars(self) -> Seq<char> {
        self.title@
    }

    /// The entry's file kind.
    pub closed spec fn file_kind(self) -> Kind {
        self.kind
    }

    /// The entry's file path.
    pub closed spec fn file_path(self) -> PathBuf {
        self.path
    }

    /// An entry for the file at `path` identified as `artist` / `title`.
    pub fn new(artist: String, title: String, path: PathBuf, kind: Kind) -> (e: LibraryEntry)
        ensures
            e.artist_chars() == artist@,
            e.title_chars() == title@,
            e.file_path() == path,
            e.file_kind() == kind,
            e.match_key() == match_key(artist@, title@),
    {
        let key = norm_key(artist.as_str(), title.as_str());
        LibraryEntry { artist, title, path, kind, key }
    }
}

/// An ASCII letter or digit.
pub fn is_alphanumeric(c: char) -> (r: bool)
    ensures
        r == is_ascii_alnum(c),
{
    ('0' <= c && c <= '9') || ('a' <= c && c <= 'z') || ('A' <= c && c <= 'Z')
}

fn normalize_chars(s: &Vec<char>) -> (r: Vec<char>)
    ensures
        r@ == normalized(s@),
{
    let mut out: Vec<char> = Vec::new();
    let mut k: usize = 0;
    assert(s@.take(0) =~= Seq::<char>::empty());
    while k < s.len()
        invariant
            k <= s.len(),
            out@ == normalized(s@.take(k as int)),
        decreases s.len() - k,
    {
        let c = s[k];
        assert(s@.take(k + 1).drop_last() =~= s@.take(k as int));
        if is_alphanumeric(c) {
            out.push(to_ascii_lower(c));
        }
        k += 1;
    }
    assert(s@.take(s.len() as int) =~= s@);
    out
}

/// Lowercases and strips to `[a-z0-9]` so punctuation, spacing and case don't
/// block a match (e.g. `"Beyoncé!"` ~ `"beyonc"`).
pub fn normalize(s: &str) -> (r: String)
    ensures
        r@ == normalized(s@),
{
    string_of(&normalize_chars(&chars_of(s)))
}

/// Normalized `artist|title` match key.
pub fn norm_key(artist: &str, title: &str) -> (r: String)
    ensures
        r@ == match_key(artist@, title@),
{
    let mut k = normalize_chars(&chars_of(artist));
    k.push('|');
    let t = normalize_chars(&chars_of(title));
    let mut i: usize = 0;
    let ghost base = k@;
    while i < t.len()
        invariant
            i <= t.len(),
            k@ == base + t@.take(i as int),
        decreases t.len() - i,
    {
        k.push(t[i]);
        i += 1;
        assert(k@ =~= base + t@.take(i as int));
    }
    assert(t@.take(t.len() as int) =~= t@);
    string_of(&k)
}

/// The kind of lyrics file an extension names, ignoring ASCII case: `txt` is
/// UltraStar, `lrc` is LRC; any other is not a lyrics file.
pub open spec fn kind_of(ext: Seq<char>) -> Option<Kind> {
    if eq_ignore_ascii_case(ext, "txt"@) {
        Some(Kind::UltraStar)
    } else if eq_ignore_ascii_case(ext, "lrc"@) {
        Some(Kind::Lrc)
    } else {
        None
    }
}

/// Which kind of lyrics file a file extension names, if any.
pub fn kind_of_extension(ext: &str) -> (r: Option<Kind>)
    ensures
        r == kind_of(ext@),
{
    let e = chars_of(ext);
    let txt = chars_of("txt");
    let lrc = chars_of("lrc");
    if e.len() == txt.len() && match_at(&e, &txt, 0, true) {
        Some(Kind::UltraStar)
    } else if e.len() == lrc.len() && match_at(&e, &lrc, 0, true) {
        Some(Kind::Lrc)
    } else {
        None
    }
}

/// How an entry is looked for: by its full key, or by its title alone.
pub open spec fn entry_matches(e: LibraryEntry, key: Seq<char>, title: Seq<char>, by_title: bool) -> bool {
    if by_title {
        normalized(e.title_chars()) == title
    } else {
        e.match_key() == key
    }
}

/// Entry `i` is the first one meeting the criterion (and, when `ultrastar`,
/// being an UltraStar file).
pub open spec fn is_first_pick(
    entries: Seq<LibraryEntry>,
    i: int,
    key: Seq<char>,
    title: Seq<char>,
    by_title: bool,
    ultrastar: bool,
) -> bool {
    &&& 0 <= i < entries.len()
    &&& entry_matches(entries[i], key, title, by_title)
    &&& (ultrastar ==> entries[i].file_kind() == Kind::UltraStar)
    &&& forall|j: int|
        0 <= j < i ==> !(#[trigger] entry_matches(entries[j], key, title, by_title) && (ultrastar
            ==> entries[j].file_kind() == Kind::UltraStar))
}

/// No entry meets the criterion (and, when `ultrastar`, is an UltraStar file).
pub open spec fn none_picked(
    entries: Seq<LibraryEntry>,
    key: Seq<char>,
    title: Seq<char>,
    by_title: bool,
    ultrastar: bool,
) -> bool {
    forall|j: int|
        0 <= j < entries.len() ==> !(#[trigger] entry_matches(entries[j], key, title, by_title) && (
        ultrastar ==> entries[j].file_kind() == Kind::UltraStar))
}

/// Among the entries meeting a criterion: the first UltraStar one, else the first.
pub open spec fn preferred(
    entries: Seq<LibraryEntry>,
    i: int,
    key: Seq<char>,
    title: Seq<char>,
    by_title: bool,
) -> bool {
    ||| is_first_pick(entries, i, key, title, by_title, true)
    ||| (none_picked(entries, key, title, by_title, true) && is_first_pick(
        entries,
        i,
        key,
        title,
        by_title,
        false,
    ))
}

/// Nothing meets the criterion.
pub open spec fn none_matches(entries: Seq<LibraryEntry>, key: Seq<char>, title: Seq<char>, by_title: bool) -> bool {
    none_picked(entries, key, title, by_title, false)
}

/// The entry `match_track` returns: the preferred exact `artist|title` match,
/// else the preferred title-only match.
pub open spec fn is_match(entries: Seq<LibraryEntry>, i: int, artist: Seq<char>, title: Seq<char>) -> bool {
    let key = match_key(artist, title);
    let t = normalized(title);
    ||| preferred(entries, i, key, t, false)
    ||| (none_matches(entries, key, t, false) && preferred(entries, i, key, t, true))
}

proof fn lemma_first_pick_unique(
    entries: Seq<LibraryEntry>,
    i: int,
    j: int,
    key: Seq<char>,
    title: Seq<char>,
    by_title: bool,
    ultrastar: bool,
)
    requires
        is_first_pick(entries, i, key, title, by_title, ultrastar),
        is_first_pick(entries, j, key, title, by_title, ultrastar),
    ensures
        i == j,
{
    if i < j {
        assert(entry_matches(entries[i], key, title, by_title));
    }
    if j < i {
        assert(entry_matches(entries[j], key, title, by_title));
    }
}

proof fn lemma_preferred_unique(
    entries: Seq<LibraryEntry>,
    i: int,
    j: int,
    key: Seq<char>,
    title: Seq<char>,
    by_title: bool,
)
    requires
        preferred(entries, i, key, title, by_title),
        preferred(entries, j, key, title, by_title),
    ensures
        i == j,
{
    if is_first_pick(entries, i, key, title, by_title, true) {
        if is_first_pick(entries, j, key, title, by_title, true) {
            lemma_first_pick_unique(entries, i, j, key, title, by_title, true);
        } else {
            assert(entry_matches(entries[i], key, title, by_title));
        }
    } else if is_first_pick(entries, j, key, title, by_title, true) {
        assert(entry_matches(entries[j], key, title, by_title));
    } else {
        lemma_first_pick_unique(entries, i, j, key, title, by_title, false);
    }
}

/// The entry that `match_track` returns is determined: no two entries are
/// both the match of a query.
pub proof fn lemma_match_unique(entries: Seq<LibraryEntry>, artist: Seq<char>, title: Seq<char>, i: int, j: int)
    requires
        is_match(entries, i, artist, title),
        is_match(entries, j, artist, title),
    ensures
        i == j,
{
    let key = match_key(artist, title);
    let t = normalized(title);
    if preferred(entries, i, key, t, false) {
        if preferred(entries, j, key, t, false) {
            lemma_preferred_unique(entries, i, j, key, t, false);
        } else {
            assert(entry_matches(entries[i], key, t, false));
        }
    } else if preferred(entries, j, key, t, false) {
        assert(entry_matches(entries[j], key, t, false));
    } else {
        lemma_preferred_unique(entries, i, j, key, t, true);
    }
}

/// An exact `artist|title` match beats a title-only one, and among exact
/// matches an UltraStar file wins over an LRC one.
pub proof fn lemma_match_prefers_exact_ultrastar(
    entries: Seq<LibraryEntry>,
    artist: Seq<char>,
    title: Seq<char>,
    i: int,
    k: int,
)
    requires
        is_match(entries, i, artist, title),
        0 <= k < entries.len(),
        entries[k].match_key() == match_key(artist, title),
    ensures
        entries[i].match_key() == match_key(artist, title),
        entries[k].file_kind() == Kind::UltraStar ==> entries[i].file_kind() == Kind::UltraStar,
{
    let key = match_key(artist, title);
    let t = normalized(title);
    assert(entry_matches(entries[k], key, t, false));
    if entries[k].file_kind() == Kind::UltraStar {
        assert(!none_picked(entries, key, t, false, true));
    }
}

/// First index meeting the criterion (UltraStar-only when `ultrastar`).
fn first_pick(entries: &[LibraryEntry], key: &String, title: &String, by_title: bool, ultrastar: bool) -> (r:
    Option<usize>)
    ensures
        match r {
            Some(i) => is_first_pick(entries@, i as int, key@, title@, by_title, ultrastar),
            None => none_picked(entries@, key@, title@, by_title, ultrastar),
        },
{
    let mut i: usize = 0;
    while i < entries.len()
        invariant
            i <= entries.len(),
            forall|j: int|
                0 <= j < i ==> !(#[trigger] entry_matches(entries@[j], key@, title@, by_title) && (
                ultrastar ==> entries@[j].file_kind() == Kind::UltraStar)),
        decreases entries.len() - i,
    {
        let e = &entries[i];
        let hit = if by_title {
            let t = normalize(e.title.as_str());
            t.eq(title)
        } else {
            e.key.eq(key)
        };
        let kind_ok = !ultrastar || e.kind == Kind::UltraStar;
        if hit && kind_ok {
            return Some(i);
        }
        i += 1;
    }
    None
}

/// From the entries meeting a criterion, the first UltraStar one, else the first at all.
fn prefer_ultrastar(entries: &[LibraryEntry], key: &String, title: &String, by_title: bool) -> (r: Option<usize>)
    ensures
        match r {
            Some(i) => preferred(entries@, i as int, key@, title@, by_title),
            None => none_matches(entries@, key@, title@, by_title),
        },
{
    match first_pick(entries, key, title, by_title, true) {
        Some(i) => Some(i),
        None => first_pick(entries, key, title, by_title, false),
    }
}

/// The library entry best matching `q`: exact `artist|title` first, then a
/// title-only fallback (browser artists are noisy). UltraStar is preferred
/// over LRC when both match, since only it can drive the karaoke pitch view.
pub fn match_track<'a>(entries: &'a [LibraryEntry], q: &TrackQuery) -> (r: Option<&'a LibraryEntry>)
    ensures
        match r {
            Some(e) => exists|i: int| is_match(entries@, i, q.artist@, q.title@) && *e == entries@[i],
            None => ({
                let key = match_key(q.artist@, q.title@);
                none_matches(entries@, key, normalized(q.title@), false) && none_matches(
                    entries@,
                    key,
                    normalized(q.title@),
                    true,
                )
            }),
        },
{
    let key = norm_key(q.artist.as_str(), q.title.as_str());
    let title = normalize(q.title.as_str());
    match prefer_ultrastar(entries, &key, &title, false) {
        Some(i) => Some(&entries[i]),
        None => match prefer_ultrastar(entries, &key, &title, true) {
            Some(i) => Some(&entries[i]),
            None => None,
        },
    }
}

/// `#ARTIST`/`#TITLE` from the leading `#` header lines of an UltraStar text;
/// the scan stops at the first line that is not a header.
pub open spec fn identity_scan(ls: Seq<Seq<char>>, artist: Seq<char>, title: Seq<char>) -> (
    Seq<char>,
    Seq<char>,
)
    decreases ls.len(),
{
    if ls.len() == 0 {
        (artist, title)
    } else {
        let line = trim_end(ls[0]);
        if line.len() == 0 || line[0] != '#' {
            (artist, title)
        } else {
            let (a, t) = match split_once(line.drop_first(), seq![':']) {
                Some((k, v)) => {
                    let key = upper(trim(k));
                    if key == "ARTIST"@ {
                        (trim(v), title)
                    } else if key == "TITLE"@ {
                        (artist, trim(v))
                    } else {
                        (artist, title)
                    }
                },
                None => (artist, title),
            };
            identity_scan(ls.drop_first(), a, t)
        }
    }
}

/// Reads `#ARTIST`/`#TITLE` from an UltraStar text without a full parse.
/// Returns `None` if no title is found.
pub fn ultrastar_headers(text: &str) -> (r: Option<(String, String)>)
    ensures
        ({
            let (a, t) = identity_scan(lines(text@), seq![], seq![]);
            match r {
                Some((ra, rt)) => t.len() > 0 && ra@ == a && rt@ == t,
                None => t.len() == 0,
            }
        }),
{
    let ls = split_lines(&chars_of(text));
    let ghost all = lines(text@);
    let mut artist: Vec<char> = Vec::new();
    let mut title: Vec<char> = Vec::new();
    let colon = chars_of(":");
    let k_artist = chars_of("ARTIST");
    let k_title = chars_of("TITLE");
    proof {
        reveal_strlit(":");
    }
    let mut i: usize = 0;
    assert(all.skip(0) =~= all);
    loop
        invariant
            i <= ls.len() == all.len(),
            all == lines(text@),
            forall|j: int| 0 <= j < ls.len() ==> #[trigger] ls[j]@ == all[j],
            colon@ == seq![':'],
            k_artist@ == "ARTIST"@,
            k_title@ == "TITLE"@,
            identity_scan(all, seq![], seq![]) == identity_scan(all.skip(i as int), artist@, title@),
        ensures
            identity_scan(all, seq![], seq![]) == (artist@, title@),
        decreases ls.len() - i,
    {
        if i >= ls.len() {
            assert(all.skip(i as int).len() == 0);
            break;
        }
        assert(all.skip(i as int)[0] == ls[i as int]@);
        assert(all.skip(i as int).drop_first() =~= all.skip(i + 1));
        let line = trim_end_chars(&ls[i]);
        if !(line.len() > 0 && line[0] == '#') {
            break;
        }
        let rest = slice(&line, 1, line.len());
        assert(rest@ =~= line@.drop_first());
        match crate::query::split_once_chars(&rest, &colon) {
            Some((k, v)) => {
                let key = upper_chars(&trim_chars(&k));
                if vec_eq(&key, &k_artist) {
                    artist = trim_chars(&v);
                } else if vec_eq(&key, &k_title) {
                    title = trim_chars(&v);
                }
            },
            None => {},
        }
        i += 1;
    }
    if title.len() > 0 {
        Some((string_of(&artist), string_of(&title)))
    } else {
        None
    }
}

/// Both sides of a case-insensitive (ASCII) comparison are equal.
pub open spec fn eq_ignore_ascii_case(a: Seq<char>, b: Seq<char>) -> bool {
    a.len() == b.len() && matches_at(a, b, 0, true)
}

/// The value of an LRC metadata tag line like `[ar:Artist]` for `tag`.
pub open spec fn lrc_tag_value(line: Seq<char>, tag: Seq<char>) -> Option<Seq<char>> {
    let t = trim(line);
    if t.len() >= 2 && t[0] == '[' && t.last() == ']' {
        match split_once(t.subrange(1, t.len() - 1), seq![':']) {
            Some((k, v)) => if eq_ignore_ascii_case(trim(k), tag) {
                Some(trim(v))
            } else {
                None
            },
            None => None,
        }
    } else {
        None
    }
}

/// Extracts the value of an LRC metadata tag like `[ar:Artist]`.
pub fn lrc_tag(line: &Vec<char>, tag: &Vec<char>) -> (r: Option<Vec<char>>)
    ensures
        match r {
            Some(v) => lrc_tag_value(line@, tag@) == Some(v@),
            None => lrc_tag_value(line@, tag@) is None,
        },
{
    let t = trim_chars(line);
    if !(t.len() >= 2 && t[0] == '[' && t[t.len() - 1] == ']') {
        return None;
    }
    let inner = slice(&t, 1, t.len() - 1);
    assert(t@.last() == ']');
    let colon = chars_of(":");
    proof {
        reveal_strlit(":");
        assert(colon@ =~= seq![':']);
    }
    match crate::query::split_once_chars(&inner, &colon) {
        Some((k, v)) => {
            let key = trim_chars(&k);
            if key.len() == tag.len() && match_at(&key, tag, 0, true) {
                assert(eq_ignore_ascii_case(trim(k@), tag@));
                Some(trim_chars(&v))
            } else {
                None
            }
        },
        None => None,
    }
}

/// Identifies an `.lrc` by its `Artist - Title` file stem, when the title part is not blank.
pub fn identity_from_stem(stem: &str) -> (r: Option<(String, String)>)
    ensures
        match r {
            Some((a, t)) => split_once(stem@, " - "@) matches Some((l, rr)) && trim(rr).len() > 0
                && a@ == trim(l) && t@ == trim(rr),
            None => match split_once(stem@, " - "@) {
                Some((l, rr)) => trim(rr).len() == 0,
                None => true,
            },
        },
{
    match crate::query::split_once_chars(&chars_of(stem), &chars_of(" - ")) {
        Some((l, rr)) => {
            let title = trim_chars(&rr);
            if title.len() > 0 {
                Some((string_of(&trim_chars(&l)), string_of(&title)))
            } else {
                None
            }
        },
        None => None,
    }
}

/// `[ar:]`/`[ti:]` values from the lines `ls` (the last of each wins).
pub open spec fn tag_scan(ls: Seq<Seq<char>>) -> (Seq<char>, Seq<char>)
    decreases ls.len(),
{
    if ls.len() == 0 {
        (seq![], seq![])
    } else {
        let (a, t) = tag_scan(ls.drop_last());
        match lrc_tag_value(ls.last(), "ar"@) {
            Some(v) => (v, t),
            None => match lrc_tag_value(ls.last(), "ti"@) {
                Some(v) => (a, v),
                None => (a, t),
            },
        }
    }
}

/// Identifies an `.lrc` by its `[ar:]`/`[ti:]` metadata tags, falling back to
/// the bare file stem as the title. `None` when no title results.
pub fn identity_from_tags(stem: &str, text: &str) -> (r: Option<(String, String)>)
    ensures
        ({
            let (a, t) = tag_scan(lines(text@));
            let title = if t.len() == 0 && stem@.len() > 0 {
                stem@
            } else {
                t
            };
            match r {
                Some((ra, rt)) => title.len() > 0 && ra@ == a && rt@ == title,
                None => title.len() == 0,
            }
        }),
{
    let ls = split_lines(&chars_of(text));
    let ghost all = lines(text@);
    let ar = chars_of("ar");
    let ti = chars_of("ti");
    let mut artist: Vec<char> = Vec::new();
    let mut title: Vec<char> = Vec::new();
    let mut i: usize = 0;
    assert(all.take(0) =~= Seq::<Seq<char>>::empty());
    while i < ls.len()
        invariant
            i <= ls.len() == all.len(),
            all == lines(text@),
            forall|j: int| 0 <= j < ls.len() ==> #[trigger] ls[j]@ == all[j],
            ar@ == "ar"@,
            ti@ == "ti"@,
            tag_scan(all.take(i as int)) == (artist@, title@),
        decreases ls.len() - i,
    {
        assert(all.take(i + 1).drop_last() =~= all.take(i as int));
        assert(all.take(i + 1).last() == ls[i as int]@);
        match lrc_tag(&ls[i], &ar) {
            Some(v) => {
                artist = v;
            },
            None => match lrc_tag(&ls[i], &ti) {
                Some(v) => {
                    title = v;
                },
                None => {},
            },
        }
        i += 1;
    }
    assert(all.take(ls.len() as int) =~= all);
    let s = chars_of(stem);
    if title.len() == 0 && s.len() > 0 {
        title = s;
    }
    if title.len() > 0 {
        Some((string_of(&artist), string_of(&title)))
    } else {
        None
    }
}

} // verus!
