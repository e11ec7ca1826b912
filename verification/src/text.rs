//! Character-level text primitives shared by the metadata cleaners and the
//! lyrics-file readers: Unicode whitespace trimming, searching (exact and
//! ASCII-case-insensitive), ASCII case folding, and conversions between
//! `String` and `Vec<char>`.
use vstd::prelude::*;

verus! {

/// Unicode `White_Space`: the characters `char::is_whitespace` accepts.
pub open spec fn is_ws(c: char) -> bool {
    let u = c as u32;
    ||| 9 <= u <= 13
    ||| u == 32
    ||| u == 0x85
    ||| u == 0xA0
    ||| u == 0x1680
    ||| 0x2000 <= u <= 0x200A
    ||| u == 0x2028
    ||| u == 0x2029
    ||| u == 0x202F
    ||| u == 0x205F
    ||| u == 0x3000
}

/// A character that trimming removes: whitespace, and also `-` when `dash` is set.
pub open spec fn trimmed_char(c: char, dash: bool) -> bool {
    is_ws(c) || (dash && c == '-')
}

/// `s` without its leading trimmed characters.
pub open spec fn trim_start_by(s: Seq<char>, dash: bool) -> Seq<char>
    decreases s.len(),
{
    if s.len() > 0 && trimmed_char(s[0], dash) {
        trim_start_by(s.drop_first(), dash)
    } else {
        s
    }
}

/// `s` without its trailing trimmed characters.
pub open spec fn trim_end_by(s: Seq<char>, dash: bool) -> Seq<char>
    decreases s.len(),
{
    if s.len() > 0 && trimmed_char(s.last(), dash) {
        trim_end_by(s.drop_last(), dash)
    } else {
        s
    }
}

/// `s` without leading whitespace (what `str::trim_start` returns).
pub open spec fn trim_start(s: Seq<char>) -> Seq<char> {
    trim_start_by(s, false)
}

/// `s` without trailing whitespace (what `str::trim_end` returns).
pub open spec fn trim_end(s: Seq<char>) -> Seq<char> {
    trim_end_by(s, false)
}

/// `s` without leading and trailing whitespace (what `str::trim` returns).
pub open spec fn trim(s: Seq<char>) -> Seq<char> {
    trim_end_by(trim_start_by(s, false), false)
}

/// `s` without leading and trailing whitespace and dashes.
pub open spec fn trim_dashes(s: Seq<char>) -> Seq<char> {
    trim_end_by(trim_start_by(s, true), true)
}

/// ASCII lower-casing of one character; every other character is unchanged.
pub open spec fn ascii_lower(c: char) -> char {
    if 'A' <= c && c <= 'Z' {
        ((c as u32) + 32) as char
    } else {
        c
    }
}

/// ASCII upper-casing of one character; every other character is unchanged.
pub open spec fn ascii_upper(c: char) -> char {
    if 'a' <= c && c <= 'z' {
        ((c as u32) - 32) as char
    } else {
        c
    }
}

/// Character equality, optionally ignoring ASCII case.
pub open spec fn char_eq(a: char, b: char, fold_case: bool) -> bool {
    if fold_case {
        ascii_lower(a) == ascii_lower(b)
    } else {
        a == b
    }
}

/// `needle` occurs in `hay` starting at position `i`.
pub open spec fn matches_at(hay: Seq<char>, needle: Seq<char>, i: int, fold_case: bool) -> bool {
    &&& 0 <= i
    &&& i + needle.len() <= hay.len()
    &&& forall|m: int| 0 <= m < needle.len() ==> char_eq(#[trigger] hay[i + m], needle[m], fold_case)
}

/// `i` is the first position at which `needle` occurs in `hay`.
pub open spec fn is_first_match(hay: Seq<char>, needle: Seq<char>, i: int, fold_case: bool) -> bool {
    &&& matches_at(hay, needle, i, fold_case)
    &&& forall|j: int| 0 <= j < i ==> !#[trigger] matches_at(hay, needle, j, fold_case)
}

/// `needle` occurs somewhere in `hay`.
pub open spec fn contains(hay: Seq<char>, needle: Seq<char>, fold_case: bool) -> bool {
    exists|i: int| matches_at(hay, needle, i, fold_case)
}

/// `hay` ends with `needle`.
pub open spec fn ends_with(hay: Seq<char>, needle: Seq<char>, fold_case: bool) -> bool {
    needle.len() <= hay.len() && matches_at(hay, needle, hay.len() - needle.len(), fold_case)
}

/// Whitespace, as `char::is_whitespace` classifies it.
pub fn is_whitespace(c: char) -> (r: bool)
    ensures
        r == is_ws(c),
{
    let u = c as u32;
    (9 <= u && u <= 13) || u == 32 || u == 0x85 || u == 0xA0 || u == 0x1680 || (0x2000 <= u && u
        <= 0x200A) || u == 0x2028 || u == 0x2029 || u == 0x202F || u == 0x205F || u == 0x3000
}

/// ASCII lower-casing of one character.
pub fn to_ascii_lower(c: char) -> (r: char)
    ensures
        r == ascii_lower(c),
{
    if 'A' <= c && c <= 'Z' {
        let b: u8 = (c as u32 + 32) as u8;
        b as char
    } else {
        c
    }
}

/// ASCII upper-casing of one character.
pub fn to_ascii_upper(c: char) -> (r: char)
    ensures
        r == ascii_upper(c),
{
    if 'a' <= c && c <= 'z' {
        let b: u8 = (c as u32 - 32) as u8;
        b as char
    } else {
        c
    }
}

/// The characters of `s`, in order.
pub fn chars_of(s: &str) -> (v: Vec<char>)
    ensures
        v@ == s@,
{
    let mut v: Vec<char> = Vec::new();
    for c in it: s.chars()
        invariant
            v@ == it.seq().take(it.index() as int),
    {
        v.push(c);
    }
    v
}

/// std's `String::push`: appends the character `c` to `s`.
#[verifier::external_body]
fn push_char(s: &mut String, c: char)
    ensures
        final(s)@ == old(s)@.push(c),
{
    s.push(c)
}

/// The characters of `v` as a `String`.
pub(crate) fn string_of(v: &Vec<char>) -> (s: String)
    ensures
        s@ == v@,
{
    let mut s = String::new();
    let mut k: usize = 0;
    while k < v.len()
        invariant
            k <= v.len(),
            s@ == v@.take(k as int),
        decreases v.len() - k,
    {
        push_char(&mut s, v[k]);
        k += 1;
        assert(s@ =~= v@.take(k as int));
    }
    assert(v@.take(v.len() as int) =~= v@);
    s
}

/// Whether two strings hold the same characters.
pub fn same_text(a: &str, b: &str) -> (r: bool)
    ensures
        r == (a@ == b@),
{
    let x = chars_of(a);
    let y = chars_of(b);
    if x.len() != y.len() {
        return false;
    }
    let mut k: usize = 0;
    while k < x.len()
        invariant
            k <= x.len() == y.len(),
            x@ == a@,
            y@ == b@,
            forall|i: int| 0 <= i < k ==> x@[i] == y@[i],
        decreases x.len() - k,
    {
        if x[k] != y[k] {
            return false;
        }
        k += 1;
    }
    assert(x@ =~= y@);
    true
}

/// A copy of `s[i..j]`.
pub fn slice(s: &Vec<char>, i: usize, j: usize) -> (r: Vec<char>)
    requires
        i <= j <= s.len(),
    ensures
        r@ == s@.subrange(i as int, j as int),
{
    let mut r: Vec<char> = Vec::new();
    let mut k = i;
    while k < j
        invariant
            i <= k <= j <= s.len(),
            r@ == s@.subrange(i as int, k as int),
        decreases j - k,
    {
        r.push(s[k]);
        k += 1;
        assert(r@ =~= s@.subrange(i as int, k as int));
    }
    r
}

/// `a` followed by `b`.
pub fn concat(a: &Vec<char>, b: &Vec<char>) -> (r: Vec<char>)
    ensures
        r@ == a@ + b@,
{
    let mut r = a.clone();
    let mut k: usize = 0;
    while k < b.len()
        invariant
            k <= b.len(),
            r@ == a@ + b@.take(k as int),
        decreases b.len() - k,
    {
        r.push(b[k]);
        k += 1;
        assert(r@ =~= a@ + b@.take(k as int));
    }
    assert(b@.take(b.len() as int) =~= b@);
    r
}

/// Skipping a run of trimmed characters does not change the front-trimmed text.
pub proof fn lemma_trim_start_skip(s: Seq<char>, i: int, dash: bool)
    requires
        0 <= i <= s.len(),
        forall|k: int| 0 <= k < i ==> trimmed_char(#[trigger] s[k], dash),
    ensures
        trim_start_by(s.skip(i), dash) == trim_start_by(s, dash),
    decreases i,
{
    if i > 0 {
        lemma_trim_start_skip(s, i - 1, dash);
        assert(s.skip(i - 1).drop_first() =~= s.skip(i));
    } else {
        assert(s.skip(0) =~= s);
    }
}

/// Dropping a run of trimmed characters does not change the back-trimmed text.
pub proof fn lemma_trim_end_take(s: Seq<char>, j: int, dash: bool)
    requires
        0 <= j <= s.len(),
        forall|k: int| j <= k < s.len() ==> trimmed_char(#[trigger] s[k], dash),
    ensures
        trim_end_by(s.take(j), dash) == trim_end_by(s, dash),
    decreases s.len() - j,
{
    if j < s.len() {
        lemma_trim_end_take(s, j + 1, dash);
        assert(s.take(j + 1).drop_last() =~= s.take(j));
    } else {
        assert(s.take(j) =~= s);
    }
}

/// Trimming the front keeps a suffix of `s`.
pub proof fn lemma_trim_start_suffix(s: Seq<char>, dash: bool)
    ensures
        trim_start_by(s, dash).len() <= s.len(),
        trim_start_by(s, dash) == s.skip(s.len() - trim_start_by(s, dash).len()),
    decreases s.len(),
{
    if s.len() > 0 && trimmed_char(s[0], dash) {
        lemma_trim_start_suffix(s.drop_first(), dash);
        let t = trim_start_by(s.drop_first(), dash);
        assert(s.drop_first().skip(s.drop_first().len() - t.len()) =~= s.skip(s.len() - t.len()));
    } else {
        assert(s.skip(0) =~= s);
    }
}

/// Trimming the back keeps a prefix of `s`.
pub proof fn lemma_trim_end_prefix(s: Seq<char>, dash: bool)
    ensures
        trim_end_by(s, dash).len() <= s.len(),
        trim_end_by(s, dash) == s.take(trim_end_by(s, dash).len() as int),
    decreases s.len(),
{
    if s.len() > 0 && trimmed_char(s.last(), dash) {
        lemma_trim_end_prefix(s.drop_last(), dash);
        let t = trim_end_by(s.drop_last(), dash);
        assert(s.drop_last().take(t.len() as int) =~= s.take(t.len() as int));
    } else {
        assert(s.take(s.len() as int) =~= s);
    }
}

/// Each character of `trim(s)` is a character of `s`, at a shifted position.
pub proof fn lemma_trim_chars_from(s: Seq<char>)
    ensures
        trim(s).len() <= trim_start(s).len() <= s.len(),
        forall|k: int|
            0 <= k < trim(s).len() ==> #[trigger] trim(s)[k] == s[s.len() - trim_start(s).len() + k],
{
    lemma_trim_start_suffix(s, false);
    lemma_trim_end_prefix(trim_start(s), false);
}

fn is_trimmed(c: char, dash: bool) -> (r: bool)
    ensures
        r == trimmed_char(c, dash),
{
    is_whitespace(c) || (dash && c == '-')
}

/// Number of leading trimmed characters of `s`.
fn leading_trimmed(s: &Vec<char>, dash: bool) -> (i: usize)
    ensures
        i <= s.len(),
        s@.skip(i as int) == trim_start_by(s@, dash),
        forall|k: int| 0 <= k < i ==> trimmed_char(#[trigger] s@[k], dash),
{
    let mut i: usize = 0;
    while i < s.len() && is_trimmed(s[i], dash)
        invariant
            i <= s.len(),
            forall|k: int| 0 <= k < i ==> trimmed_char(#[trigger] s@[k], dash),
        decreases s.len() - i,
    {
        i += 1;
    }
    proof {
        lemma_trim_start_skip(s@, i as int, dash);
    }
    i
}

/// End of `s` once trailing trimmed characters after position `lo` are dropped.
fn trailing_trimmed_start(s: &Vec<char>, lo: usize, dash: bool) -> (j: usize)
    requires
        lo <= s.len(),
    ensures
        lo <= j <= s.len(),
        s@.subrange(lo as int, j as int) == trim_end_by(s@.subrange(lo as int, s.len() as int), dash),
{
    let mut j: usize = s.len();
    while j > lo && is_trimmed(s[j - 1], dash)
        invariant
            lo <= j <= s.len(),
            forall|k: int| j <= k < s.len() ==> trimmed_char(#[trigger] s@[k], dash),
        decreases j,
    {
        j -= 1;
    }
    proof {
        let t = s@.subrange(lo as int, s.len() as int);
        assert forall|k: int| j - lo <= k < t.len() implies trimmed_char(#[trigger] t[k], dash) by {
            assert(t[k] == s@[lo + k]);
        }
        lemma_trim_end_take(t, j - lo, dash);
        assert(t.take(j - lo) =~= s@.subrange(lo as int, j as int));
        let u = s@.subrange(lo as int, j as int);
        if u.len() > 0 {
            assert(u.last() == s@[j - 1]);
        }
    }
    j
}

/// Both ends of `s` with trimmed characters dropped.
fn trim_both(s: &Vec<char>, dash: bool) -> (r: Vec<char>)
    ensures
        r@ == trim_end_by(trim_start_by(s@, dash), dash),
{
    let i = leading_trimmed(s, dash);
    let j = trailing_trimmed_start(s, i, dash);
    assert(s@.skip(i as int) =~= s@.subrange(i as int, s.len() as int));
    slice(s, i, j)
}

/// `trim(s)`.
pub fn trim_chars(s: &Vec<char>) -> (r: Vec<char>)
    ensures
        r@ == trim(s@),
{
    trim_both(s, false)
}

/// `trim_dashes(s)`.
pub fn trim_dash_chars(s: &Vec<char>) -> (r: Vec<char>)
    ensures
        r@ == trim_dashes(s@),
{
    trim_both(s, true)
}

/// `trim_start(s)`.
pub fn trim_start_chars(s: &Vec<char>) -> (r: Vec<char>)
    ensures
        r@ == trim_start(s@),
{
    let i = leading_trimmed(s, false);
    assert(s@.skip(i as int) =~= s@.subrange(i as int, s.len() as int));
    slice(s, i, s.len())
}

/// `trim_end(s)`.
pub fn trim_end_chars(s: &Vec<char>) -> (r: Vec<char>)
    ensures
        r@ == trim_end(s@),
{
    let j = trailing_trimmed_start(s, 0, false);
    assert(s@.subrange(0, s.len() as int) =~= s@);
    slice(s, 0, j)
}

/// Whether `needle` occurs in `hay` at position `i`.
pub fn match_at(hay: &Vec<char>, needle: &Vec<char>, i: usize, fold_case: bool) -> (r: bool)
    ensures
        r == matches_at(hay@, needle@, i as int, fold_case),
{
    if i > hay.len() || needle.len() > hay.len() - i {
        return false;
    }
    let mut k: usize = 0;
    while k < needle.len()
        invariant
            k <= needle.len(),
            i + needle.len() <= hay.len(),
            forall|m: int| 0 <= m < k ==> char_eq(#[trigger] hay@[i + m], needle@[m], fold_case),
        decreases needle.len() - k,
    {
        let a = hay[i + k];
        let b = needle[k];
        let same = if fold_case {
            to_ascii_lower(a) == to_ascii_lower(b)
        } else {
            a == b
        };
        if !same {
            assert(!char_eq(hay@[i + k as int], needle@[k as int], fold_case));
            return false;
        }
        k += 1;
    }
    true
}

/// First position at which `needle` occurs in `hay`.
pub fn find(hay: &Vec<char>, needle: &Vec<char>, fold_case: bool) -> (r: Option<usize>)
    ensures
        match r {
            Some(i) => is_first_match(hay@, needle@, i as int, fold_case),
            None => !contains(hay@, needle@, fold_case),
        },
{
    let mut i: usize = 0;
    loop
        invariant
            i <= hay.len(),
            forall|j: int| 0 <= j < i ==> !#[trigger] matches_at(hay@, needle@, j, fold_case),
        decreases hay.len() - i,
    {
        if match_at(hay, needle, i, fold_case) {
            return Some(i);
        }
        if i == hay.len() {
            assert forall|j: int| !#[trigger] matches_at(hay@, needle@, j, fold_case) by {
                if 0 <= j < i {
                } else if j > hay.len() {
                }
            }
            return None;
        }
        i += 1;
    }
}

/// Whether `hay` ends with `needle`.
pub fn ends_with_chars(hay: &Vec<char>, needle: &Vec<char>, fold_case: bool) -> (r: bool)
    ensures
        r == ends_with(hay@, needle@, fold_case),
{
    if needle.len() > hay.len() {
        false
    } else {
        match_at(hay, needle, hay.len() - needle.len(), fold_case)
    }
}

/// The ASCII digit for `d` (`0 <= d < 10`).
pub open spec fn digit_char(d: nat) -> char {
    ((d + 48) as u32) as char
}

/// Decimal representation of `n` (what `Display` writes for an unsigned integer).
pub open spec fn decimal(n: nat) -> Seq<char>
    decreases n,
{
    if n < 10 {
        seq![digit_char(n)]
    } else {
        decimal(n / 10).push(digit_char(n % 10))
    }
}

/// Decimal representation of a signed integer: a `-` before negative values.
pub open spec fn signed_decimal(n: int) -> Seq<char> {
    if n < 0 {
        seq!['-'] + decimal((-n) as nat)
    } else {
        decimal(n as nat)
    }
}

/// Appends the decimal digits of `n` to `out`.
pub fn push_decimal(out: &mut Vec<char>, n: u64)
    ensures
        final(out)@ == old(out)@ + decimal(n as nat),
    decreases n,
{
    if n >= 10 {
        push_decimal(out, n / 10);
    }
    let d: u8 = (n % 10) as u8;
    out.push((d + 48) as char);
    proof {
        if n >= 10 {
            assert(out@ =~= old(out)@ + decimal(n as nat));
        } else {
            assert(out@ =~= old(out)@ + decimal(n as nat));
        }
    }
}

/// Appends the decimal representation of `n` to `out`.
pub fn push_signed_decimal(out: &mut Vec<char>, n: i64)
    ensures
        final(out)@ == old(out)@ + signed_decimal(n as int),
{
    if n < 0 {
        out.push('-');
        let m: u64 = (0i128 - n as i128) as u64;
        push_decimal(out, m);
        assert(out@ =~= old(out)@ + signed_decimal(n as int));
    } else {
        push_decimal(out, n as u64);
    }
}

/// Appends the characters of `s` to `out`.
pub fn push_str(out: &mut Vec<char>, s: &str)
    ensures
        final(out)@ == old(out)@ + s@,
{
    let v = chars_of(s);
    let mut k: usize = 0;
    while k < v.len()
        invariant
            k <= v.len(),
            v@ == s@,
            out@ == old(out)@ + v@.take(k as int),
        decreases v.len() - k,
    {
        out.push(v[k]);
        k += 1;
        assert(out@ =~= old(out)@ + v@.take(k as int));
    }
    assert(v@.take(v.len() as int) =~= v@);
}

/// Appends the characters of `s` to `out`.
pub fn push_chars(out: &mut Vec<char>, s: &Vec<char>)
    ensures
        final(out)@ == old(out)@ + s@,
{
    let mut k: usize = 0;
    while k < s.len()
        invariant
            k <= s.len(),
            out@ == old(out)@ + s@.take(k as int),
        decreases s.len() - k,
    {
        out.push(s[k]);
        k += 1;
        assert(out@ =~= old(out)@ + s@.take(k as int));
    }
    assert(s@.take(s.len() as int) =~= s@);
}

/// Position of the first `c` in `s`, or `s.len()` when there is none.
pub open spec fn index_of_char(s: Seq<char>, c: char) -> int
    decreases s.len(),
{
    if s.len() == 0 {
        0
    } else if s[0] == c {
        0
    } else {
        1 + index_of_char(s.drop_first(), c)
    }
}

/// `index_of_char` is the position of the first `c`, or the length when there is none.
pub proof fn lemma_index_of_char(s: Seq<char>, c: char)
    ensures
        0 <= index_of_char(s, c) <= s.len(),
        index_of_char(s, c) < s.len() ==> s[index_of_char(s, c)] == c,
        forall|k: int| 0 <= k < index_of_char(s, c) ==> s[k] != c,
    decreases s.len(),
{
    if s.len() > 0 && s[0] != c {
        lemma_index_of_char(s.drop_first(), c);
        assert forall|k: int| 0 <= k < index_of_char(s, c) implies s[k] != c by {
            if k > 0 {
                assert(s[k] == s.drop_first()[k - 1]);
            }
        }
    }
}

/// A line without the `\r` of a `\r\n` ending.
pub open spec fn strip_cr(line: Seq<char>) -> Seq<char> {
    if line.len() > 0 && line.last() == '\r' {
        line.drop_last()
    } else {
        line
    }
}

/// The lines of `s`, as `str::lines` yields them: split at `\n`, with a `\r`
/// before the `\n` dropped, and no empty line after a final `\n`.
pub open spec fn lines(s: Seq<char>) -> Seq<Seq<char>>
    decreases s.len(),
{
    if s.len() == 0 {
        seq![]
    } else {
        let k = index_of_char(s, '\n');
        proof {
            lemma_index_of_char(s, '\n');
        }
        if k < s.len() {
            seq![strip_cr(s.take(k))] + lines(s.skip(k + 1))
        } else {
            seq![s]
        }
    }
}

/// The lines of `s` (see [`lines`]).
pub fn split_lines(s: &Vec<char>) -> (r: Vec<Vec<char>>)
    ensures
        r.len() == lines(s@).len(),
        forall|i: int| 0 <= i < r.len() ==> #[trigger] r[i]@ == lines(s@)[i],
{
    let mut r: Vec<Vec<char>> = Vec::new();
    let mut pos: usize = 0;
    let ghost done: Seq<Seq<char>> = seq![];
    assert(s@.skip(0) =~= s@);
    while pos < s.len()
        invariant
            pos <= s.len(),
            r.len() == done.len(),
            forall|i: int| 0 <= i < r.len() ==> #[trigger] r[i]@ == done[i],
            lines(s@) == done + lines(s@.skip(pos as int)),
        decreases s.len() - pos,
    {
        let ghost rest = s@.skip(pos as int);
        let mut k = pos;
        while k < s.len() && s[k] != '\n'
            invariant
                pos <= k <= s.len(),
                forall|m: int| pos <= m < k ==> s@[m] != '\n',
            decreases s.len() - k,
        {
            k += 1;
        }
        proof {
            lemma_index_of_char(rest, '\n');
            let j = index_of_char(rest, '\n');
            if j < k - pos {
                assert(rest[j] == s@[pos + j]);
            }
            if k - pos < j {
                assert(rest[k - pos] == s@[k as int]);
            }
            assert(j == k - pos);
        }
        let mut line = slice(s, pos, k);
        assert(line@ =~= rest.take(k - pos));
        if k < s.len() {
            if line.len() > 0 && line[line.len() - 1] == '\r' {
                line.pop();
            }
            proof {
                assert(rest.skip(k - pos + 1) =~= s@.skip(k + 1));
                done = done.push(strip_cr(rest.take(k - pos)));
                assert(lines(s@) =~= done + lines(s@.skip(k + 1)));
            }
            r.push(line);
            pos = k + 1;
        } else {
            proof {
                assert(rest.take(k - pos) =~= rest);
                done = done.push(rest);
                assert(s@.skip(s.len() as int) =~= Seq::<char>::empty());
                assert(lines(s@) =~= done + lines(s@.skip(s.len() as int)));
            }
            r.push(line);
            pos = s.len();
        }
    }
    assert(lines(s@) =~= done);
    r
}

/// An ASCII digit.
pub open spec fn is_digit(c: char) -> bool {
    '0' <= c && c <= '9'
}

/// Every character of `s` is an ASCII digit.
pub open spec fn all_digits(s: Seq<char>) -> bool {
    forall|i: int| 0 <= i < s.len() ==> is_digit(#[trigger] s[i])
}

/// The number written by the ASCII digits `s`.
pub open spec fn digits_value(s: Seq<char>) -> int
    decreases s.len(),
{
    if s.len() == 0 {
        0
    } else {
        digits_value(s.drop_last()) * 10 + ((s.last() as int) - 48)
    }
}

/// What `i64::from_str` accepts: an optional sign then at least one ASCII
/// digit, with the value in range.
pub open spec fn parsed_i64(s: Seq<char>) -> Option<i64> {
    let signed = s.len() > 0 && (s[0] == '-' || s[0] == '+');
    let ds = if signed {
        s.drop_first()
    } else {
        s
    };
    let v = if s.len() > 0 && s[0] == '-' {
        -digits_value(ds)
    } else {
        digits_value(ds)
    };
    if ds.len() > 0 && all_digits(ds) && i64::MIN <= v <= i64::MAX {
        Some(v as i64)
    } else {
        None
    }
}

/// A digit string's value is not negative.
pub proof fn lemma_digits_value_nonneg(s: Seq<char>)
    requires
        all_digits(s),
    ensures
        digits_value(s) >= 0,
    decreases s.len(),
{
    if s.len() > 0 {
        assert(all_digits(s.drop_last())) by {
            assert forall|i: int| 0 <= i < s.drop_last().len() implies is_digit(#[trigger] s.drop_last()[i]) by {
                assert(s.drop_last()[i] == s[i]);
            }
        }
        lemma_digits_value_nonneg(s.drop_last());
        assert(is_digit(s[s.len() - 1]));
    }
}

/// A prefix of a digit string has no larger value.
pub proof fn lemma_digits_value_prefix(s: Seq<char>, k: int)
    requires
        all_digits(s),
        0 <= k <= s.len(),
    ensures
        digits_value(s.take(k)) <= digits_value(s),
    decreases s.len() - k,
{
    if k < s.len() {
        lemma_digits_value_prefix(s, k + 1);
        let t = s.take(k + 1);
        assert(t.drop_last() =~= s.take(k));
        assert(all_digits(s.take(k))) by {
            assert forall|i: int| 0 <= i < k implies is_digit(#[trigger] s.take(k)[i]) by {
                assert(s.take(k)[i] == s[i]);
            }
        }
        lemma_digits_value_nonneg(s.take(k));
        assert(is_digit(s[k]));
        assert(t.last() == s[k]);
    } else {
        assert(s.take(k) =~= s);
    }
}

/// `s` read as an `i64` (see [`parsed_i64`]).
pub fn parse_i64(s: &Vec<char>) -> (r: Option<i64>)
    ensures
        r == parsed_i64(s@),
{
    let neg = s.len() > 0 && s[0] == '-';
    let start: usize = if s.len() > 0 && (s[0] == '-' || s[0] == '+') {
        1
    } else {
        0
    };
    let ghost ds = s@.skip(start as int);
    assert(ds =~= if start == 1 {
        s@.drop_first()
    } else {
        s@
    });
    if start >= s.len() {
        return None;
    }
    let mut acc: i64 = 0;
    let mut i: usize = start;
    assert(ds.take(0) =~= Seq::<char>::empty());
    while i < s.len()
        invariant
            start <= i <= s.len(),
            ds == s@.skip(start as int),
            ds == if s@.len() > 0 && (s@[0] == '-' || s@[0] == '+') {
                s@.drop_first()
            } else {
                s@
            },
            neg == (s@.len() > 0 && s@[0] == '-'),
            forall|k: int| 0 <= k < i - start ==> is_digit(#[trigger] ds[k]),
            acc == if neg {
                -digits_value(ds.take(i - start))
            } else {
                digits_value(ds.take(i - start))
            },
        decreases s.len() - i,
    {
        let c = s[i];
        assert(ds[i - start] == c);
        if !('0' <= c && c <= '9') {
            assert(!all_digits(ds));
            return None;
        }
        let d: i128 = (c as u32 - 48) as i128;
        let next: i128 = if neg {
            acc as i128 * 10 - d
        } else {
            acc as i128 * 10 + d
        };
        let ghost t = ds.take(i + 1 - start);
        assert(t.drop_last() =~= ds.take(i - start));
        assert(t.last() == c);
        assert(digits_value(t) == digits_value(ds.take(i - start)) * 10 + d);
        if next < i64::MIN as i128 || next > i64::MAX as i128 {
            proof {
                if all_digits(ds) {
                    lemma_digits_value_prefix(ds, i + 1 - start);
                    assert(all_digits(ds.take(i - start))) by {
                        assert forall|k: int| 0 <= k < i - start implies is_digit(#[trigger] ds.take(i - start)[k]) by {
                            assert(ds.take(i - start)[k] == ds[k]);
                        }
                    }
                    lemma_digits_value_nonneg(ds.take(i - start));
                    assert(digits_value(t) > i64::MAX || -digits_value(t) < i64::MIN);
                }
            }
            return None;
        }
        acc = next as i64;
        i += 1;
    }
    assert(ds.take(i - start) =~= ds);
    Some(acc)
}

} // verus!
