//! Lyrics lookup queries built from now-playing metadata.
//!
//! Player metadata is decorated in ways that wreck LRCLIB lookups: bracketed
//! tags (`[OFFICIAL VIDEO]`), featuring suffixes (`ft. …`), channel-name
//! artists (`TimbalandVEVO`, `OneRepublic - Topic`). [`build_query`] cleans
//! them. A browser's artist field is the channel or label, but its title is
//! reliably `Artist - Song`, so for browsers the artist comes from the title;
//! native players keep their (trustworthy) artist and an intact title.
use crate::text::{
    decimal, push_chars, push_decimal, push_str,
    chars_of, concat, contains, ends_with, ends_with_chars, find, is_first_match, is_whitespace, is_ws,
    char_eq, matches_at, slice, string_of, trim, trim_chars, trim_dash_chars, trim_dashes, trim_end,
    trim_end_chars, lemma_trim_chars_from, trim_start,
};
use vstd::prelude::*;

verus! {

/// The characters `str::to_lowercase` returns for a string with characters `s`
/// (full Unicode lower-casing, by std's tables).
pub uninterp spec fn unicode_lowercase(s: Seq<char>) -> Seq<char>;

/// std's `str::to_lowercase`: the result is `unicode_lowercase` of the input.
#[verifier::external_body]
fn to_lowercase(s: &str) -> (r: String)
    ensures
        r@ == unicode_lowercase(s@),
{
    s.to_lowercase()
}

/// Identifying signature for a track, derived from player metadata.
#[derive(Debug, Clone, PartialEq)]
pub struct TrackQuery {
    pub artist: String,
    pub title: String,
    pub album: Option<String>,
    pub duration: Option<u64>,
}

/// The characters of an optional string.
pub open spec fn opt_chars(o: Option<String>) -> Option<Seq<char>> {
    match o {
        Some(s) => Some(s@),
        None => None,
    }
}

/// Words that mark a parenthesised segment of a title as decoration.
pub open spec fn noise_words() -> Seq<Seq<char>> {
    seq![
        "official"@,
        "video"@,
        "audio"@,
        "lyric"@,
        "visualizer"@,
        "remaster"@,
        "explicit"@,
        "hd"@,
        "4k"@,
        "mv"@,
        "clip"@,
        "color"@,
        "colour"@,
        "performance"@,
        "version"@,
    ]
}

/// Names whose presence in a player identity marks a web browser.
pub open spec fn browser_names() -> Seq<Seq<char>> {
    seq![
        "chrome"@,
        "chromium"@,
        "firefox"@,
        "mozilla"@,
        "brave"@,
        "edge"@,
        "vivaldi"@,
        "opera"@,
    ]
}

/// Markers that start a featuring suffix (matched ignoring ASCII case).
pub open spec fn featuring_markers() -> Seq<Seq<char>> {
    seq![" feat."@, " feat "@, " ft."@, " ft "@, " featuring "@]
}

/// `hay` contains one of `words` (exactly).
pub open spec fn contains_any(hay: Seq<char>, words: Seq<Seq<char>>) -> bool {
    exists|k: int| 0 <= k < words.len() && contains(hay, #[trigger] words[k], false)
}

/// A bracketed segment is decoration when its lower-cased text contains a noise word.
pub open spec fn is_noise(inner: Seq<char>) -> bool {
    contains_any(unicode_lowercase(inner), noise_words())
}

/// A bracketed segment is decoration exactly when its lower-cased text holds
/// one of: official, video, audio, lyric, visualizer, remaster, explicit, hd,
/// 4k, mv, clip, color, colour, performance, version.
pub proof fn lemma_noise_words(hay: Seq<char>)
    ensures
        contains_any(hay, noise_words()) <==> (
            contains(hay, "official"@, false) ||
            contains(hay, "video"@, false) ||
            contains(hay, "audio"@, false) ||
            contains(hay, "lyric"@, false) ||
            contains(hay, "visualizer"@, false) ||
            contains(hay, "remaster"@, false) ||
            contains(hay, "explicit"@, false) ||
            contains(hay, "hd"@, false) ||
            contains(hay, "4k"@, false) ||
            contains(hay, "mv"@, false) ||
            contains(hay, "clip"@, false) ||
            contains(hay, "color"@, false) ||
            contains(hay, "colour"@, false) ||
            contains(hay, "performance"@, false) ||
            contains(hay, "version"@, false)),
{
    if contains(hay, "official"@, false) {
        assert(noise_words()[0] == "official"@);
    }
    if contains(hay, "video"@, false) {
        assert(noise_words()[1] == "video"@);
    }
    if contains(hay, "audio"@, false) {
        assert(noise_words()[2] == "audio"@);
    }
    if contains(hay, "lyric"@, false) {
        assert(noise_words()[3] == "lyric"@);
    }
    if contains(hay, "visualizer"@, false) {
        assert(noise_words()[4] == "visualizer"@);
    }
    if contains(hay, "remaster"@, false) {
        assert(noise_words()[5] == "remaster"@);
    }
    if contains(hay, "explicit"@, false) {
        assert(noise_words()[6] == "explicit"@);
    }
    if contains(hay, "hd"@, false) {
        assert(noise_words()[7] == "hd"@);
    }
    if contains(hay, "4k"@, false) {
        assert(noise_words()[8] == "4k"@);
    }
    if contains(hay, "mv"@, false) {
        assert(noise_words()[9] == "mv"@);
    }
    if contains(hay, "clip"@, false) {
        assert(noise_words()[10] == "clip"@);
    }
    if contains(hay, "color"@, false) {
        assert(noise_words()[11] == "color"@);
    }
    if contains(hay, "colour"@, false) {
        assert(noise_words()[12] == "colour"@);
    }
    if contains(hay, "performance"@, false) {
        assert(noise_words()[13] == "performance"@);
    }
    if contains(hay, "version"@, false) {
        assert(noise_words()[14] == "version"@);
    }
    if contains_any(hay, noise_words()) {
        let k = choose|k: int| 0 <= k < noise_words().len() && contains(hay, #[trigger] noise_words()[k], false);
        if k == 0 {
            assert(noise_words()[k] == "official"@);
        }
        if k == 1 {
            assert(noise_words()[k] == "video"@);
        }
        if k == 2 {
            assert(noise_words()[k] == "audio"@);
        }
        if k == 3 {
            assert(noise_words()[k] == "lyric"@);
        }
        if k == 4 {
            assert(noise_words()[k] == "visualizer"@);
        }
        if k == 5 {
            assert(noise_words()[k] == "remaster"@);
        }
        if k == 6 {
            assert(noise_words()[k] == "explicit"@);
        }
        if k == 7 {
            assert(noise_words()[k] == "hd"@);
        }
        if k == 8 {
            assert(noise_words()[k] == "4k"@);
        }
        if k == 9 {
            assert(noise_words()[k] == "mv"@);
        }
        if k == 10 {
            assert(noise_words()[k] == "clip"@);
        }
        if k == 11 {
            assert(noise_words()[k] == "color"@);
        }
        if k == 12 {
            assert(noise_words()[k] == "colour"@);
        }
        if k == 13 {
            assert(noise_words()[k] == "performance"@);
        }
        if k == 14 {
            assert(noise_words()[k] == "version"@);
        }
    }
}

/// A player is a web browser exactly when its lower-cased name holds one of:
/// chrome, chromium, firefox, mozilla, brave, edge, vivaldi, opera.
pub proof fn lemma_browser_names(hay: Seq<char>)
    ensures
        contains_any(hay, browser_names()) <==> (
            contains(hay, "chrome"@, false) ||
            contains(hay, "chromium"@, false) ||
            contains(hay, "firefox"@, false) ||
            contains(hay, "mozilla"@, false) ||
            contains(hay, "brave"@, false) ||
            contains(hay, "edge"@, false) ||
            contains(hay, "vivaldi"@, false) ||
            contains(hay, "opera"@, false)),
{
    if contains(hay, "chrome"@, false) {
        assert(browser_names()[0] == "chrome"@);
    }
    if contains(hay, "chromium"@, false) {
        assert(browser_names()[1] == "chromium"@);
    }
    if contains(hay, "firefox"@, false) {
        assert(browser_names()[2] == "firefox"@);
    }
    if contains(hay, "mozilla"@, false) {
        assert(browser_names()[3] == "mozilla"@);
    }
    if contains(hay, "brave"@, false) {
        assert(browser_names()[4] == "brave"@);
    }
    if contains(hay, "edge"@, false) {
        assert(browser_names()[5] == "edge"@);
    }
    if contains(hay, "vivaldi"@, false) {
        assert(browser_names()[6] == "vivaldi"@);
    }
    if contains(hay, "opera"@, false) {
        assert(browser_names()[7] == "opera"@);
    }
    if contains_any(hay, browser_names()) {
        let k = choose|k: int| 0 <= k < browser_names().len() && contains(hay, #[trigger] browser_names()[k], false);
        if k == 0 {
            assert(browser_names()[k] == "chrome"@);
        }
        if k == 1 {
            assert(browser_names()[k] == "chromium"@);
        }
        if k == 2 {
            assert(browser_names()[k] == "firefox"@);
        }
        if k == 3 {
            assert(browser_names()[k] == "mozilla"@);
        }
        if k == 4 {
            assert(browser_names()[k] == "brave"@);
        }
        if k == 5 {
            assert(browser_names()[k] == "edge"@);
        }
        if k == 6 {
            assert(browser_names()[k] == "vivaldi"@);
        }
        if k == 7 {
            assert(browser_names()[k] == "opera"@);
        }
    }
}

#[verifier::ext_equal]
/// Scan state of group removal: text kept so far, the open group's text, nesting depth.
pub struct GroupScan {
    pub out: Seq<char>,
    pub buf: Seq<char>,
    pub depth: nat,
}

/// One step of removing `open…close` groups. A finished top-level group is put
/// back only when `keep_clean` is set and its text is not noise.
pub open spec fn group_step(
    st: GroupScan,
    c: char,
    open: char,
    close: char,
    keep_clean: bool,
) -> GroupScan {
    if c == open {
        GroupScan { depth: st.depth + 1, ..st }
    } else if c == close && st.depth > 0 {
        if st.depth == 1 {
            let out = if keep_clean && !is_noise(st.buf) {
                st.out.push(open) + st.buf.push(close)
            } else {
                st.out
            };
            GroupScan { out, buf: seq![], depth: 0 }
        } else {
            GroupScan { depth: (st.depth - 1) as nat, ..st }
        }
    } else if st.depth > 0 {
        GroupScan { buf: st.buf.push(c), ..st }
    } else {
        GroupScan { out: st.out.push(c), ..st }
    }
}

/// Scan state after reading all of `s`.
pub open spec fn group_scan(s: Seq<char>, open: char, close: char, keep_clean: bool) -> GroupScan
    decreases s.len(),
{
    if s.len() == 0 {
        GroupScan { out: seq![], buf: seq![], depth: 0 }
    } else {
        group_step(group_scan(s.drop_last(), open, close, keep_clean), s.last(), open, close, keep_clean)
    }
}

/// `s` with its `open…close` groups removed (clean groups kept when `keep_clean`).
pub open spec fn without_groups(s: Seq<char>, open: char, close: char, keep_clean: bool) -> Seq<char> {
    group_scan(s, open, close, keep_clean).out
}

/// A featuring marker starts at position `i` of `s`.
pub open spec fn featuring_at(s: Seq<char>, i: int) -> bool {
    exists|k: int| 0 <= k < featuring_markers().len() && matches_at(s, #[trigger] featuring_markers()[k], i, true)
}

/// `s` cut at its first featuring marker, if it has one.
pub open spec fn without_featuring(s: Seq<char>) -> Seq<char> {
    if exists|i: int| featuring_at(s, i) {
        let i = choose|i: int| featuring_at(s, i) && forall|j: int| 0 <= j < i ==> !featuring_at(s, j);
        s.take(i)
    } else {
        s
    }
}

/// Group removal leaves a text with no `open` character as it is.
proof fn lemma_no_groups(s: Seq<char>, open: char, close: char, keep_clean: bool)
    requires
        forall|i: int| 0 <= i < s.len() ==> s[i] != open,
    ensures
        group_scan(s, open, close, keep_clean) == (GroupScan { out: s, buf: seq![], depth: 0 }),
    decreases s.len(),
{
    if s.len() > 0 {
        lemma_no_groups(s.drop_last(), open, close, keep_clean);
        assert(s.drop_last().push(s.last()) =~= s);
    }
}

/// The five featuring markers, each of which starts with a space.
pub open spec fn is_featuring_literal(m: Seq<char>) -> bool {
    m == " feat."@ || m == " feat "@ || m == " ft."@ || m == " ft "@ || m == " featuring "@
}

/// A title is cut where a featuring marker starts: with `a` free of spaces,
/// `a` followed by ` feat.`, ` feat `, ` ft.`, ` ft ` or ` featuring ` and
/// anything at all loses everything from the marker on; and `a` alone, having
/// no space, has no marker to cut at.
pub proof fn lemma_featuring_cut(a: Seq<char>, m: Seq<char>, b: Seq<char>)
    requires
        is_featuring_literal(m),
        forall|i: int| 0 <= i < a.len() ==> a[i] != ' ',
    ensures
        without_featuring(a + m + b) == a,
        without_featuring(a) == a,
{
    reveal_strlit(" feat.");
    reveal_strlit(" feat ");
    reveal_strlit(" ft.");
    reveal_strlit(" ft ");
    reveal_strlit(" featuring ");
    let s = a + m + b;
    let ms = featuring_markers();
    assert forall|k: int| 0 <= k < ms.len() implies (#[trigger] ms[k]).len() > 0 && ms[k][0] == ' ' by {}
    // No marker starts inside `a`: each begins with a space, and `a` has none.
    assert forall|j: int| 0 <= j < a.len() implies !featuring_at(s, j) by {
        if featuring_at(s, j) {
            let k = choose|k: int| 0 <= k < ms.len() && matches_at(s, #[trigger] ms[k], j, true);
            assert(char_eq(s[j + 0], ms[k][0], true));
            assert(s[j] == a[j]);
        }
    }
    assert forall|j: int| 0 <= j < a.len() implies !featuring_at(a, j) by {
        if featuring_at(a, j) {
            let k = choose|k: int| 0 <= k < ms.len() && matches_at(a, #[trigger] ms[k], j, true);
            assert(char_eq(a[j + 0], ms[k][0], true));
        }
    }
    assert(!exists|i: int| featuring_at(a, i)) by {
        if exists|i: int| featuring_at(a, i) {
            let i = choose|i: int| featuring_at(a, i);
            let k = choose|k: int| 0 <= k < ms.len() && matches_at(a, #[trigger] ms[k], i, true);
            assert(0 <= i < a.len());
        }
    }
    // The marker itself starts at `a.len()`.
    let km: int = if m == " feat."@ {
        0
    } else if m == " feat "@ {
        1
    } else if m == " ft."@ {
        2
    } else if m == " ft "@ {
        3
    } else {
        4
    };
    assert(ms[km] == m);
    assert forall|x: int| 0 <= x < m.len() implies char_eq(#[trigger] s[a.len() + x], m[x], true) by {
        assert(s[a.len() + x] == m[x]);
    }
    assert(matches_at(s, ms[km], a.len() as int, true));
    assert(featuring_at(s, a.len() as int));
    let i = choose|i: int| featuring_at(s, i) && forall|j: int| 0 <= j < i ==> !featuring_at(s, j);
    assert(featuring_at(s, a.len() as int) && forall|j: int| 0 <= j < a.len() ==> !featuring_at(s, j));
    if i < a.len() {
        assert(!featuring_at(s, i));
    }
    if i > a.len() {
        assert(!featuring_at(s, a.len() as int));
    }
    assert(s.take(a.len() as int) =~= a);
}

/// A featuring suffix never reaches the cleaned title: for a title `a` with
/// no spaces and no `[` or `(`, adding a featuring marker and any credits
/// without `[` or `(` cleans to the same title as `a` alone; so
/// `Stay feat. Justin Bieber` cleans to `Stay`.
pub proof fn lemma_featuring_dropped(a: Seq<char>, m: Seq<char>, b: Seq<char>)
    requires
        is_featuring_literal(m),
        forall|i: int| 0 <= i < a.len() ==> a[i] != ' ' && a[i] != '[' && a[i] != '(',
        forall|i: int| 0 <= i < b.len() ==> b[i] != '[' && b[i] != '(',
    ensures
        cleaned_title(a + m + b) == cleaned_title(a),
{
    reveal_strlit(" feat.");
    reveal_strlit(" feat ");
    reveal_strlit(" ft.");
    reveal_strlit(" ft ");
    reveal_strlit(" featuring ");
    let s = a + m + b;
    assert forall|i: int| 0 <= i < s.len() implies s[i] != '[' && s[i] != '(' by {
        if i < a.len() {
            assert(s[i] == a[i]);
        } else if i < a.len() + m.len() {
            assert(s[i] == m[i - a.len()]);
        } else {
            assert(s[i] == b[i - a.len() - m.len()]);
        }
    }
    lemma_no_groups(s, '[', ']', false);
    lemma_no_groups(s, '(', ')', true);
    lemma_no_groups(a, '[', ']', false);
    lemma_no_groups(a, '(', ')', true);
    lemma_featuring_cut(a, m, b);
}

/// Whitespace runs collapsed to single spaces, with none at either end
/// (what `split_whitespace().join(" ")` builds). The flag records a pending space.
pub open spec fn squeeze_scan(s: Seq<char>) -> (Seq<char>, bool)
    decreases s.len(),
{
    if s.len() == 0 {
        (seq![], false)
    } else {
        let (out, pending) = squeeze_scan(s.drop_last());
        let c = s.last();
        if is_ws(c) {
            (out, out.len() > 0)
        } else {
            ((if pending { out.push(' ') } else { out }).push(c), false)
        }
    }
}

/// `s` with whitespace runs collapsed to single spaces and none at either end.
pub open spec fn squeeze_ws(s: Seq<char>) -> Seq<char> {
    squeeze_scan(s).0
}

/// A title without `[…]` tags, noisy `(…)` groups, a featuring suffix, extra
/// whitespace, and leading/trailing dashes.
pub open spec fn cleaned_title(s: Seq<char>) -> Seq<char> {
    let no_square = without_groups(s, '[', ']', false);
    let no_paren = without_groups(no_square, '(', ')', true);
    trim_dashes(squeeze_ws(without_featuring(no_paren)))
}

/// An artist without a ` - Topic` suffix (any case) or a `VEVO` suffix (ASCII case).
pub open spec fn cleaned_artist(s: Seq<char>) -> Seq<char> {
    let a = trim(s);
    let a1 = if ends_with(unicode_lowercase(a), " - topic"@, false) && a.len() >= " - topic"@.len() {
        trim(a.take(a.len() - " - topic"@.len()))
    } else {
        a
    };
    if ends_with(a1, "vevo"@, true) {
        trim_end(a1.take(a1.len() - "vevo"@.len()))
    } else {
        a1
    }
}

/// The first artist that is non-empty once cleaned.
pub open spec fn first_artist(artists: Seq<Seq<char>>) -> Option<Seq<char>>
    decreases artists.len(),
{
    if artists.len() == 0 {
        None
    } else if cleaned_artist(artists[0]).len() > 0 {
        Some(cleaned_artist(artists[0]))
    } else {
        first_artist(artists.drop_first())
    }
}

/// `s` split around the first occurrence of `sep`.
pub open spec fn split_once(s: Seq<char>, sep: Seq<char>) -> Option<(Seq<char>, Seq<char>)> {
    if contains(s, sep, false) {
        let i = choose|i: int| is_first_match(s, sep, i, false);
        Some((s.take(i), s.skip(i + sep.len())))
    } else {
        None
    }
}

/// The `(artist, title)` pair: an `Artist - Song` title is split when the
/// metadata artist is untrusted (browser) or absent, and both halves are non-empty.
pub open spec fn resolved(title: Seq<char>, meta_artist: Option<Seq<char>>, from_browser: bool) -> (
    Seq<char>,
    Seq<char>,
) {
    let fallback = (
        match meta_artist {
            Some(a) => a,
            None => seq![],
        },
        title,
    );
    if from_browser || meta_artist is None {
        match split_once(title, " - "@) {
            Some((l, r)) => if trim(l).len() > 0 && trim(r).len() > 0 {
                (trim(l), trim(r))
            } else {
                fallback
            },
            None => fallback,
        }
    } else {
        fallback
    }
}

/// The album kept in a query: trimmed, and dropped when blank.
pub open spec fn kept_album(album: Option<Seq<char>>) -> Option<Seq<char>> {
    match album {
        Some(a) => if trim(a).len() > 0 {
            Some(trim(a))
        } else {
            None
        },
        None => None,
    }
}

/// What `build_query` returns, over the inputs' characters.
pub open spec fn built_query(
    title: Option<Seq<char>>,
    artists: Seq<Seq<char>>,
    album: Option<Seq<char>>,
    length_secs: Option<u64>,
    from_browser: bool,
) -> Option<(Seq<char>, Seq<char>, Option<Seq<char>>, Option<u64>)> {
    match title {
        None => None,
        Some(t) => if trim(t).len() == 0 {
            None
        } else {
            let (artist, title) = resolved(cleaned_title(trim(t)), first_artist(artists), from_browser);
            let duration = match length_secs {
                Some(d) => if d > 0 {
                    Some(d)
                } else {
                    None
                },
                None => None,
            };
            Some((artist, title, kept_album(album), duration))
        },
    }
}

/// Where a query's artist comes from. For a browser, an `Artist - Song`
/// title (both halves non-blank once cleaned) gives the artist and the title,
/// whatever the metadata artist says. For a native player with a usable
/// metadata artist, that artist is kept and the cleaned title stays whole.
pub proof fn lemma_artist_source(
    title: Seq<char>,
    artists: Seq<Seq<char>>,
    album: Option<Seq<char>>,
    length_secs: Option<u64>,
)
    requires
        trim(title).len() > 0,
    ensures
        split_once(cleaned_title(trim(title)), " - "@) matches Some((l, r)) ==> (trim(l).len() > 0
            && trim(r).len() > 0 ==> (built_query(Some(title), artists, album, length_secs, true) matches Some(
            q,
        ) && q.0 == trim(l) && q.1 == trim(r))),
        first_artist(artists) matches Some(a) ==> (built_query(
            Some(title),
            artists,
            album,
            length_secs,
            false,
        ) matches Some(q) && q.0 == a && q.1 == cleaned_title(trim(title))),
{
}

/// The characters of a query, field by field.
pub open spec fn query_chars(q: TrackQuery) -> (Seq<char>, Seq<char>, Option<Seq<char>>, Option<u64>) {
    (q.artist@, q.title@, opt_chars(q.album), q.duration)
}

/// A word list as character vectors.
fn word_list(words: Vec<&'static str>) -> (r: Vec<Vec<char>>)
    ensures
        r.len() == words.len(),
        forall|k: int| 0 <= k < r.len() ==> #[trigger] r[k]@ == words[k]@,
{
    let mut r: Vec<Vec<char>> = Vec::new();
    let mut k: usize = 0;
    while k < words.len()
        invariant
            k <= words.len(),
            r.len() == k,
            forall|j: int| 0 <= j < k ==> #[trigger] r[j]@ == words[j]@,
        decreases words.len() - k,
    {
        r.push(chars_of(words[k]));
        k += 1;
    }
    r
}

fn noise_word_list() -> (r: Vec<Vec<char>>)
    ensures
        r.len() == noise_words().len(),
        forall|k: int| 0 <= k < r.len() ==> #[trigger] r[k]@ == noise_words()[k],
{
    word_list(
        vec![
            "official",
            "video",
            "audio",
            "lyric",
            "visualizer",
            "remaster",
            "explicit",
            "hd",
            "4k",
            "mv",
            "clip",
            "color",
            "colour",
            "performance",
            "version",
        ],
    )
}

fn browser_name_list() -> (r: Vec<Vec<char>>)
    ensures
        r.len() == browser_names().len(),
        forall|k: int| 0 <= k < r.len() ==> #[trigger] r[k]@ == browser_names()[k],
{
    word_list(vec!["chrome", "chromium", "firefox", "mozilla", "brave", "edge", "vivaldi", "opera"])
}

fn featuring_marker_list() -> (r: Vec<Vec<char>>)
    ensures
        r.len() == featuring_markers().len(),
        forall|k: int| 0 <= k < r.len() ==> #[trigger] r[k]@ == featuring_markers()[k],
{
    word_list(vec![" feat.", " feat ", " ft.", " ft ", " featuring "])
}

/// Whether `hay` contains one of `words`.
fn contains_any_of(hay: &Vec<char>, words: &Vec<Vec<char>>) -> (r: bool)
    ensures
        r == exists|k: int| 0 <= k < words.len() && contains(hay@, #[trigger] words[k]@, false),
{
    let mut k: usize = 0;
    while k < words.len()
        invariant
            k <= words.len(),
            forall|j: int| 0 <= j < k ==> !contains(hay@, #[trigger] words[j]@, false),
        decreases words.len() - k,
    {
        if find(hay, &words[k], false).is_some() {
            return true;
        }
        k += 1;
    }
    false
}

/// Whether an already lower-cased text contains a noise word.
pub fn contains_noise_word(lower: &Vec<char>) -> (r: bool)
    ensures
        r == contains_any(lower@, noise_words()),
{
    let words = noise_word_list();
    let r = contains_any_of(lower, &words);
    proof {
        if r {
            let k = choose|k: int| 0 <= k < words.len() && contains(lower@, #[trigger] words[k]@, false);
            assert(contains(lower@, noise_words()[k], false));
        } else {
            assert forall|k: int| 0 <= k < noise_words().len() implies !contains(lower@, #[trigger] noise_words()[k], false) by {
                assert(words[k]@ == noise_words()[k]);
            }
        }
    }
    r
}

/// Whether a bracketed segment's text is decoration (contains a noise word once lower-cased).
fn contains_noise(inner: &Vec<char>) -> (r: bool)
    ensures
        r == is_noise(inner@),
{
    let s = string_of(inner);
    let lower = to_lowercase(s.as_str());
    contains_noise_word(&chars_of(lower.as_str()))
}

/// Whether an already lower-cased player identity names a web browser.
pub fn names_browser(lower: &Vec<char>) -> (r: bool)
    ensures
        r == contains_any(lower@, browser_names()),
{
    let words = browser_name_list();
    let r = contains_any_of(lower, &words);
    proof {
        if r {
            let k = choose|k: int| 0 <= k < words.len() && contains(lower@, #[trigger] words[k]@, false);
            assert(contains(lower@, browser_names()[k], false));
        } else {
            assert forall|k: int| 0 <= k < browser_names().len() implies !contains(lower@, #[trigger] browser_names()[k], false) by {
                assert(words[k]@ == browser_names()[k]);
            }
        }
    }
    r
}

/// Whether a player identity is a web browser (whose artist metadata is the
/// channel or label, not the performer).
pub fn is_browser(identity: &str) -> (r: bool)
    ensures
        r == contains_any(unicode_lowercase(identity@), browser_names()),
{
    let lower = to_lowercase(identity);
    names_browser(&chars_of(lower.as_str()))
}

/// Removes `open…close` groups; a finished group is put back only when
/// `keep_clean` is set and its text is not noise.
fn remove_groups(s: &Vec<char>, open: char, close: char, keep_clean: bool) -> (r: Vec<char>)
    ensures
        r@ == without_groups(s@, open, close, keep_clean),
{
    let mut out: Vec<char> = Vec::new();
    let mut buf: Vec<char> = Vec::new();
    let mut depth: usize = 0;
    let mut i: usize = 0;
    assert(s@.take(0) =~= Seq::<char>::empty());
    while i < s.len()
        invariant
            i <= s.len(),
            depth <= i,
            group_scan(s@.take(i as int), open, close, keep_clean) =~= (GroupScan {
                out: out@,
                buf: buf@,
                depth: depth as nat,
            }),
        decreases s.len() - i,
    {
        let c = s[i];
        let ghost before = GroupScan { out: out@, buf: buf@, depth: depth as nat };
        if c == open {
            depth += 1;
        } else if c == close && depth > 0 {
            depth -= 1;
            if depth == 0 {
                if keep_clean && !contains_noise(&buf) {
                    out.push(open);
                    out = concat(&out, &buf);
                    out.push(close);
                    assert(out@ =~= before.out.push(open) + before.buf.push(close));
                }
                buf = Vec::new();
            }
        } else if depth > 0 {
            buf.push(c);
        } else {
            out.push(c);
        }
        assert(s@.take(i + 1).drop_last() =~= s@.take(i as int));
        assert(group_step(before, c, open, close, keep_clean) =~= (GroupScan {
            out: out@,
            buf: buf@,
            depth: depth as nat,
        }));
        i += 1;
    }
    assert(s@.take(s.len() as int) =~= s@);
    out
}

/// There is at most one first match of `needle` in `hay`.
pub proof fn lemma_first_match_unique(hay: Seq<char>, needle: Seq<char>, i: int, j: int, fold_case: bool)
    requires
        is_first_match(hay, needle, i, fold_case),
        is_first_match(hay, needle, j, fold_case),
    ensures
        i == j,
{
    if i < j {
        assert(!matches_at(hay, needle, i, fold_case));
    } else if j < i {
        assert(!matches_at(hay, needle, j, fold_case));
    }
}

/// First ASCII-case-insensitive occurrence of a non-empty `needle` in `haystack`.
fn find_ci(haystack: &Vec<char>, needle: &Vec<char>) -> (r: Option<usize>)
    ensures
        match r {
            Some(i) => needle.len() > 0 && is_first_match(haystack@, needle@, i as int, true),
            None => needle.len() == 0 || !contains(haystack@, needle@, true),
        },
{
    if needle.len() == 0 {
        return None;
    }
    find(haystack, needle, true)
}

/// Cuts a title at its first `feat./ft./featuring` marker.
fn strip_featuring(s: &Vec<char>) -> (r: Vec<char>)
    ensures
        r@ == without_featuring(s@),
{
    proof {
        reveal_strlit(" feat.");
        reveal_strlit(" feat ");
        reveal_strlit(" ft.");
        reveal_strlit(" ft ");
        reveal_strlit(" featuring ");
    }
    let markers = featuring_marker_list();
    let mut best: Option<usize> = None;
    let mut k: usize = 0;
    while k < markers.len()
        invariant
            k <= markers.len(),
            markers.len() == featuring_markers().len(),
            forall|j: int| 0 <= j < markers.len() ==> #[trigger] markers[j]@ == featuring_markers()[j],
            forall|j: int| 0 <= j < markers.len() ==> #[trigger] markers[j]@.len() > 0,
            match best {
                Some(b) => {
                    &&& b <= s.len()
                    &&& exists|j: int| 0 <= j < k && matches_at(s@, #[trigger] markers[j]@, b as int, true)
                    &&& forall|i: int, j: int|
                        0 <= i < b && 0 <= j < k ==> !#[trigger] matches_at(s@, markers[j]@, i, true)
                },
                None => forall|i: int, j: int| 0 <= j < k ==> !#[trigger] matches_at(s@, markers[j]@, i, true),
            },
        decreases markers.len() - k,
    {
        match find_ci(s, &markers[k]) {
            Some(i) => {
                let better = match best {
                    Some(b) => i < b,
                    None => true,
                };
                if better {
                    best = Some(i);
                }
            },
            None => {},
        }
        k += 1;
    }
    match best {
        Some(b) => {
            proof {
                let j0 = choose|j: int| 0 <= j < k && matches_at(s@, #[trigger] markers[j]@, b as int, true);
                assert(featuring_at(s@, b as int)) by {
                    assert(featuring_markers()[j0] == markers[j0]@);
                }
                assert forall|i: int| 0 <= i < b implies !featuring_at(s@, i) by {
                    if featuring_at(s@, i) {
                        let j1 = choose|j: int|
                            0 <= j < featuring_markers().len() && matches_at(s@, #[trigger] featuring_markers()[j], i, true);
                        assert(markers[j1]@ == featuring_markers()[j1]);
                    }
                }
                let c = choose|i: int| featuring_at(s@, i) && forall|j: int| 0 <= j < i ==> !featuring_at(s@, j);
                if c < b {
                } else if b < c {
                }
                assert(c == b);
            }
            slice(s, 0, b)
        },
        None => {
            proof {
                assert forall|i: int| !featuring_at(s@, i) by {
                    if featuring_at(s@, i) {
                        let j1 = choose|j: int|
                            0 <= j < featuring_markers().len() && matches_at(s@, #[trigger] featuring_markers()[j], i, true);
                        assert(markers[j1]@ == featuring_markers()[j1]);
                    }
                }
            }
            s.clone()
        },
    }
}

/// Collapses whitespace runs to single spaces and drops them at both ends.
fn squeeze_whitespace(s: &Vec<char>) -> (r: Vec<char>)
    ensures
        r@ == squeeze_ws(s@),
{
    let mut out: Vec<char> = Vec::new();
    let mut pending = false;
    let mut i: usize = 0;
    assert(s@.take(0) =~= Seq::<char>::empty());
    while i < s.len()
        invariant
            i <= s.len(),
            squeeze_scan(s@.take(i as int)) == (out@, pending),
        decreases s.len() - i,
    {
        let c = s[i];
        assert(s@.take(i + 1).drop_last() =~= s@.take(i as int));
        if is_whitespace(c) {
            pending = out.len() > 0;
        } else {
            if pending {
                out.push(' ');
            }
            out.push(c);
            pending = false;
        }
        i += 1;
    }
    assert(s@.take(s.len() as int) =~= s@);
    out
}

/// Removes title decorations: all `[…]` tags, `(…)` groups that contain a
/// noise word, any featuring suffix, and surplus whitespace and dashes.
fn clean_title_chars(s: &Vec<char>) -> (r: Vec<char>)
    ensures
        r@ == cleaned_title(s@),
{
    let no_square = remove_groups(s, '[', ']', false);
    let no_paren = remove_groups(&no_square, '(', ')', true);
    let no_feat = strip_featuring(&no_paren);
    trim_dash_chars(&squeeze_whitespace(&no_feat))
}

/// Strips channel-name cruft from an artist: a ` - Topic` suffix (YouTube
/// auto-generated channels) or a `VEVO` suffix.
fn clean_artist_chars(s: &str) -> (r: Vec<char>)
    ensures
        r@ == cleaned_artist(s@),
{
    let a = trim_chars(&chars_of(s));
    let lower = to_lowercase(string_of(&a).as_str());
    let topic = chars_of(" - topic");
    let a1 = if ends_with_chars(&chars_of(lower.as_str()), &topic, false) && a.len() >= topic.len() {
        trim_chars(&slice(&a, 0, a.len() - topic.len()))
    } else {
        a
    };
    let vevo = chars_of("vevo");
    if ends_with_chars(&a1, &vevo, true) {
        trim_end_chars(&slice(&a1, 0, a1.len() - vevo.len()))
    } else {
        a1
    }
}

/// The first artist that is non-empty once cleaned.
/// Strips decorations that wreck LRCLIB lookups from a title: `[…]` tags,
/// parentheticals holding noise words and a featuring suffix; then squeezes
/// whitespace runs and trims surrounding whitespace and dashes.
pub fn clean_title(s: &str) -> (r: String)
    ensures
        r@ == cleaned_title(s@),
{
    string_of(&clean_title_chars(&chars_of(s)))
}

/// Strips channel decorations from an artist name: a ` - Topic` suffix and a
/// `VEVO` suffix (any case).
pub fn clean_artist(s: &str) -> (r: String)
    ensures
        r@ == cleaned_artist(s@),
{
    string_of(&clean_artist_chars(s))
}

fn first_clean_artist(artists: &Vec<String>) -> (r: Option<Vec<char>>)
    ensures
        match r {
            Some(a) => first_artist(artists@.map_values(|x: String| x@)) == Some(a@),
            None => first_artist(artists@.map_values(|x: String| x@)) is None,
        },
{
    let ghost all = artists@.map_values(|x: String| x@);
    let mut i: usize = 0;
    assert(all.skip(0) =~= all);
    while i < artists.len()
        invariant
            i <= artists.len(),
            all == artists@.map_values(|x: String| x@),
            first_artist(all) == first_artist(all.skip(i as int)),
        decreases artists.len() - i,
    {
        let a = clean_artist_chars(artists[i].as_str());
        assert(all.skip(i as int)[0] == artists[i as int]@);
        if a.len() > 0 {
            return Some(a);
        }
        assert(all.skip(i as int).drop_first() =~= all.skip(i + 1));
        i += 1;
    }
    assert(all.skip(i as int).len() == 0);
    None
}

/// `s` split around the first occurrence of `sep`.
pub fn split_once_chars(s: &Vec<char>, sep: &Vec<char>) -> (r: Option<(Vec<char>, Vec<char>)>)
    ensures
        match r {
            Some((l, rr)) => split_once(s@, sep@) == Some((l@, rr@)),
            None => split_once(s@, sep@) is None,
        },
{
    match find(s, sep, false) {
        Some(i) => {
            proof {
                let c = choose|j: int| is_first_match(s@, sep@, j, false);
                lemma_first_match_unique(s@, sep@, c, i as int, false);
                assert(s@.subrange(0, i as int) =~= s@.take(i as int));
                assert(s@.subrange(i + sep.len(), s.len() as int) =~= s@.skip(i + sep.len()));
            }
            Some((slice(s, 0, i), slice(s, i + sep.len(), s.len())))
        },
        None => None,
    }
}

/// Resolves `(artist, title)` from a cleaned title and an optional metadata
/// artist: for browsers (and when no metadata artist is known) an
/// `Artist - Song` title is split; otherwise the metadata artist is trusted
/// and the title left intact.
pub(crate) fn resolve_artist_title(title: Vec<char>, meta_artist: Option<Vec<char>>, from_browser: bool) -> (r: (
    Vec<char>,
    Vec<char>,
))
    ensures
        (r.0@, r.1@) == resolved(
            title@,
            match meta_artist {
                Some(a) => Some(a@),
                None => None,
            },
            from_browser,
        ),
{
    if from_browser || meta_artist.is_none() {
        if let Some((left, right)) = split_once_chars(&title, &chars_of(" - ")) {
            let l = trim_chars(&left);
            let rt = trim_chars(&right);
            if l.len() > 0 && rt.len() > 0 {
                return (l, rt);
            }
        }
    }
    match meta_artist {
        Some(a) => (a, title),
        None => (Vec::new(), title),
    }
}

/// Builds a lyrics query from raw player metadata fields, cleaning the
/// decorations that otherwise wreck LRCLIB lookups: bracketed tags, featuring
/// suffixes, and channel-name artists. `from_browser` flags an untrusted artist
/// field: the artist is then taken from an `Artist - Song` title. Returns `None`
/// if there is no usable title.
pub fn build_query(
    title: Option<String>,
    artists: Vec<String>,
    album: Option<String>,
    length_secs: Option<u64>,
    from_browser: bool,
) -> (r: Option<TrackQuery>)
    ensures
        match r {
            Some(q) => built_query(
                opt_chars(title),
                artists@.map_values(|x: String| x@),
                opt_chars(album),
                length_secs,
                from_browser,
            ) == Some(query_chars(q)),
            None => built_query(
                opt_chars(title),
                artists@.map_values(|x: String| x@),
                opt_chars(album),
                length_secs,
                from_browser,
            ) is None,
        },
{
    let raw_title = match &title {
        Some(t) => trim_chars(&chars_of(t.as_str())),
        None => {
            return None;
        },
    };
    if raw_title.len() == 0 {
        return None;
    }
    let meta_artist = first_clean_artist(&artists);
    let (artist, resolved_title) = resolve_artist_title(clean_title_chars(&raw_title), meta_artist, from_browser);
    let album_kept = match &album {
        Some(a) => {
            let t = trim_chars(&chars_of(a.as_str()));
            if t.len() > 0 {
                Some(string_of(&t))
            } else {
                None
            }
        },
        None => None,
    };
    let duration = match length_secs {
        Some(d) => if d > 0 {
            Some(d)
        } else {
            None
        },
        None => None,
    };
    Some(
        TrackQuery {
            artist: string_of(&artist),
            title: string_of(&resolved_title),
            album: album_kept,
            duration,
        },
    )
}

/// The change-detection and cache key of a query, over its characters:
/// lower-cased artist, title and album, and the duration (0 when unknown).
pub open spec fn query_key(q: (Seq<char>, Seq<char>, Option<Seq<char>>, Option<u64>)) -> Seq<char> {
    let (artist, title, album, duration) = q;
    unicode_lowercase(artist) + seq!['|'] + unicode_lowercase(title) + seq!['|'] + unicode_lowercase(
        match album {
            Some(a) => a,
            None => ""@,
        },
    ) + seq!['|'] + decimal(
        match duration {
            Some(d) => d as nat,
            None => 0,
        },
    )
}

/// A character of a library file name: path separators and `:` become `-`.
pub open spec fn filename_char(c: char) -> char {
    if c == '/' || c == '\\' || c == ':' {
        '-'
    } else {
        c
    }
}

/// A name made safe for a file name, then trimmed.
pub open spec fn sanitized(s: Seq<char>) -> Seq<char> {
    trim(Seq::new(s.len(), |i: int| filename_char(s[i])))
}

/// `Artist - Title.lrc` (or `Title.lrc` with no artist), sanitized.
pub open spec fn library_file_name(artist: Seq<char>, title: Seq<char>) -> Seq<char> {
    if sanitized(artist).len() == 0 {
        sanitized(title) + ".lrc"@
    } else {
        sanitized(artist) + " - "@ + sanitized(title) + ".lrc"@
    }
}

/// The now-playing label: `♪ Title`, or `♪ Artist — Title` when the artist is not blank.
pub open spec fn now_playing_label(artist: Seq<char>, title: Seq<char>) -> Seq<char> {
    if trim(artist).len() == 0 {
        "\u{266a} "@ + title
    } else {
        "\u{266a} "@ + artist + " \u{2014} "@ + title
    }
}

/// A sanitized name holds no path separator and no `:`.
pub proof fn lemma_sanitized_plain(s: Seq<char>)
    ensures
        forall|k: int|
            0 <= k < sanitized(s).len() ==> {
                let c = #[trigger] sanitized(s)[k];
                c != '/' && c != '\\' && c != ':'
            },
{
    let m = Seq::new(s.len(), |i: int| filename_char(s[i]));
    lemma_trim_chars_from(m);
    assert forall|k: int| 0 <= k < sanitized(s).len() implies {
        let c = #[trigger] sanitized(s)[k];
        c != '/' && c != '\\' && c != ':'
    } by {
        let j = m.len() - trim_start(m).len() + k;
        assert(sanitized(s)[k] == m[j]);
        assert(m[j] == filename_char(s[j]));
    }
}

/// A library file name is one plain file name, never a path: it holds no
/// `/`, `\\` or `:`, and ends in `.lrc`.
pub proof fn lemma_library_name_is_plain(artist: Seq<char>, title: Seq<char>)
    ensures
        forall|k: int|
            0 <= k < library_file_name(artist, title).len() ==> {
                let c = #[trigger] library_file_name(artist, title)[k];
                c != '/' && c != '\\' && c != ':'
            },
        library_file_name(artist, title).len() >= 4,
        library_file_name(artist, title).skip(library_file_name(artist, title).len() - 4) == ".lrc"@,
{
    reveal_strlit(".lrc");
    reveal_strlit(" - ");
    lemma_sanitized_plain(artist);
    lemma_sanitized_plain(title);
    let name = library_file_name(artist, title);
    let a = sanitized(artist);
    let t = sanitized(title);
    assert forall|k: int| 0 <= k < name.len() implies {
        let c = #[trigger] name[k];
        c != '/' && c != '\\' && c != ':'
    } by {
        if a.len() == 0 {
            if k >= t.len() {
                assert(name[k] == ".lrc"@[k - t.len()]);
            } else {
                assert(name[k] == t[k]);
            }
        } else {
            if k < a.len() {
                assert(name[k] == a[k]);
            } else if k < a.len() + 3 {
                assert(name[k] == " - "@[k - a.len()]);
            } else if k < a.len() + 3 + t.len() {
                assert(name[k] == t[k - a.len() - 3]);
            } else {
                assert(name[k] == ".lrc"@[k - a.len() - 3 - t.len()]);
            }
        }
    }
    assert(name.skip(name.len() - 4) =~= ".lrc"@);
}

/// The key depends on a query only through its lower-cased artist, title and
/// album (a missing album counts as empty) and its duration (a missing one
/// counts as 0): queries that differ only in letter case share their key.
pub proof fn lemma_key_ignores_case(a: TrackQuery, b: TrackQuery)
    requires
        unicode_lowercase(a.artist@) == unicode_lowercase(b.artist@),
        unicode_lowercase(a.title@) == unicode_lowercase(b.title@),
        unicode_lowercase(
            match a.album {
                Some(x) => x@,
                None => ""@,
            },
        ) == unicode_lowercase(
            match b.album {
                Some(x) => x@,
                None => ""@,
            },
        ),
        a.duration.unwrap_or(0) == b.duration.unwrap_or(0),
    ensures
        query_key(query_chars(a)) == query_key(query_chars(b)),
{
}

impl TrackQuery {
    /// Stable key for change-detection and cache filenames.
    pub fn key(&self) -> (r: String)
        ensures
            r@ == query_key(query_chars(*self)),
    {
        let mut out: Vec<char> = Vec::new();
        push_str(&mut out, to_lowercase(self.artist.as_str()).as_str());
        out.push('|');
        push_str(&mut out, to_lowercase(self.title.as_str()).as_str());
        out.push('|');
        let album: &str = match &self.album {
            Some(a) => a.as_str(),
            None => "",
        };
        push_str(&mut out, to_lowercase(album).as_str());
        out.push('|');
        let d: u64 = match self.duration {
            Some(d) => d,
            None => 0,
        };
        push_decimal(&mut out, d);
        let ghost expected = query_key(query_chars(*self));
        assert(out@ =~= expected);
        string_of(&out)
    }
}

/// Whether an HTTP status code warrants a retry: only server-side `5xx`
/// errors are transient; `4xx` (including `404`/`429`) are definitive.
pub fn status_is_retryable(code: u16) -> (r: bool)
    ensures
        r == (500 <= code < 600),
{
    500 <= code && code < 600
}

/// A name made safe for a file name: path separators and `:` become `-`; then trimmed.
fn sanitize(s: &str) -> (r: Vec<char>)
    ensures
        r@ == sanitized(s@),
{
    let v = chars_of(s);
    let mut out: Vec<char> = Vec::new();
    let mut k: usize = 0;
    while k < v.len()
        invariant
            k <= v.len(),
            v@ == s@,
            out@ == Seq::new(k as nat, |i: int| filename_char(v@[i])),
        decreases v.len() - k,
    {
        let c = v[k];
        let d = if c == '/' || c == '\\' || c == ':' {
            '-'
        } else {
            c
        };
        out.push(d);
        k += 1;
        assert(out@ =~= Seq::new(k as nat, |i: int| filename_char(v@[i])));
    }
    trim_chars(&out)
}

/// `Artist - Title.lrc` (sanitized): the file name the song library reads.
pub fn library_filename(q: &TrackQuery) -> (r: String)
    ensures
        r@ == library_file_name(q.artist@, q.title@),
{
    let artist = sanitize(q.artist.as_str());
    let title = sanitize(q.title.as_str());
    let mut out: Vec<char> = Vec::new();
    if artist.len() > 0 {
        push_chars(&mut out, &artist);
        push_str(&mut out, " - ");
    }
    push_chars(&mut out, &title);
    push_str(&mut out, ".lrc");
    assert(out@ =~= library_file_name(q.artist@, q.title@));
    string_of(&out)
}

/// The now-playing label shown during a track's intro.
pub fn track_label(query: &TrackQuery) -> (r: String)
    ensures
        r@ == now_playing_label(query.artist@, query.title@),
{
    let mut out: Vec<char> = Vec::new();
    push_str(&mut out, "\u{266a} ");
    if trim_chars(&chars_of(query.artist.as_str())).len() > 0 {
        push_str(&mut out, query.artist.as_str());
        push_str(&mut out, " \u{2014} ");
    }
    push_str(&mut out, query.title.as_str());
    assert(out@ =~= now_playing_label(query.artist@, query.title@));
    string_of(&out)
}

} // verus!
