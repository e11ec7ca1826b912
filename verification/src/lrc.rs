//! The text layer of LRC synced lyrics: leading `[..]` tags of a line and
//! enhanced word-level tags (`<mm:ss.xx>`). Reading a tag's timestamp as
//! seconds happens in floating point outside the library.
use crate::text::{
    chars_of, index_of_char, lemma_index_of_char, slice, string_of, trim_start, trim_start_chars,
};
use vstd::prelude::*;

verus! {

/// Scan state of word-tag stripping: text kept so far and the `<…>` nesting depth.
pub open spec fn strip_scan(s: Seq<char>) -> (Seq<char>, nat)
    decreases s.len(),
{
    if s.len() == 0 {
        (seq![], 0)
    } else {
        let (out, depth) = strip_scan(s.drop_last());
        let c = s.last();
        if c == '<' {
            (out, depth + 1)
        } else if c == '>' && depth > 0 {
            (out, (depth - 1) as nat)
        } else if depth == 0 {
            (out.push(c), depth)
        } else {
            (out, depth)
        }
    }
}

/// `s` without its `<…>` word tags.
pub open spec fn without_word_tags(s: Seq<char>) -> Seq<char> {
    strip_scan(s).0
}

/// Removes enhanced word-level tags like `<00:12.34>` from a lyric line.
pub fn strip_word_tags(s: &str) -> (r: String)
    ensures
        r@ == without_word_tags(s@),
{
    let v = chars_of(s);
    let mut out: Vec<char> = Vec::new();
    let mut depth: usize = 0;
    let mut i: usize = 0;
    assert(v@.take(0) =~= Seq::<char>::empty());
    while i < v.len()
        invariant
            i <= v.len(),
            v@ == s@,
            depth <= i,
            strip_scan(v@.take(i as int)) == (out@, depth as nat),
        decreases v.len() - i,
    {
        let c = v[i];
        assert(v@.take(i + 1).drop_last() =~= v@.take(i as int));
        if c == '<' {
            depth += 1;
        } else if c == '>' && depth > 0 {
            depth -= 1;
        } else if depth == 0 {
            out.push(c);
        }
        i += 1;
    }
    assert(v@.take(v.len() as int) =~= v@);
    string_of(&out)
}

/// Stripped text never holds a `<`, and each of its characters occurs in the input.
pub proof fn lemma_stripped_text(s: Seq<char>)
    ensures
        !without_word_tags(s).contains('<'),
        forall|k: int|
            0 <= k < without_word_tags(s).len() ==> s.contains(#[trigger] without_word_tags(s)[k]),
    decreases s.len(),
{
    if s.len() > 0 {
        let prev = s.drop_last();
        lemma_stripped_text(prev);
        let out = without_word_tags(prev);
        assert forall|k: int| 0 <= k < without_word_tags(s).len() implies s.contains(
            #[trigger] without_word_tags(s)[k],
        ) by {
            if k < out.len() {
                assert(without_word_tags(s)[k] == out[k]);
                assert(prev.contains(out[k]));
                let j = choose|j: int| 0 <= j < prev.len() && prev[j] == out[k];
                assert(s[j] == out[k]);
            } else {
                assert(without_word_tags(s)[k] == s[s.len() - 1]);
            }
        }
        assert(!without_word_tags(s).contains('<')) by {
            if without_word_tags(s).contains('<') {
                let k = choose|k: int| 0 <= k < without_word_tags(s).len() && without_word_tags(s)[k] == '<';
                if k < out.len() {
                    assert(out[k] == '<');
                }
            }
        }
    }
}

/// A line without a `<` is kept whole.
pub proof fn lemma_plain_text_kept(s: Seq<char>)
    requires
        !s.contains('<'),
    ensures
        strip_scan(s) == (s, 0nat),
    decreases s.len(),
{
    if s.len() > 0 {
        assert(!s.drop_last().contains('<')) by {
            if s.drop_last().contains('<') {
                let j = choose|j: int| 0 <= j < s.drop_last().len() && s.drop_last()[j] == '<';
                assert(s[j] == '<');
            }
        }
        lemma_plain_text_kept(s.drop_last());
        assert(s.last() != '<') by {
            if s.last() == '<' {
                assert(s[s.len() - 1] == '<');
            }
        }
        assert(s.drop_last().push(s.last()) =~= s);
    }
}

/// Stripping word tags a second time changes nothing.
pub proof fn lemma_strip_idempotent(s: Seq<char>)
    ensures
        without_word_tags(without_word_tags(s)) == without_word_tags(s),
{
    lemma_stripped_text(s);
    lemma_plain_text_kept(without_word_tags(s));
}

/// `i` is the position of the first `c` in `s`.
pub open spec fn first_pos(s: Seq<char>, c: char, i: int) -> bool {
    0 <= i < s.len() && s[i] == c && forall|j: int| 0 <= j < i ==> s[j] != c
}

/// A leading `[..]` tag of `s`: its contents and what follows it with leading
/// whitespace removed. `None` when `s` does not start with `[` or has no `]`.
pub open spec fn leading_tag(s: Seq<char>) -> Option<(Seq<char>, Seq<char>)> {
    let rest = s.drop_first();
    if s.len() > 0 && s[0] == '[' && rest.contains(']') {
        let close = choose|i: int| first_pos(rest, ']', i);
        Some((rest.take(close), trim_start(rest.skip(close + 1))))
    } else {
        None
    }
}

/// Splits off a leading `[..]` tag: its contents, and the text after it with
/// leading whitespace trimmed.
pub fn split_leading_tag(s: &str) -> (r: Option<(String, String)>)
    ensures
        match r {
            Some((tag, rest)) => leading_tag(s@) == Some((tag@, rest@)),
            None => leading_tag(s@) is None,
        },
{
    let v = chars_of(s);
    if v.len() == 0 || v[0] != '[' {
        return None;
    }
    let ghost rest = s@.drop_first();
    let mut k: usize = 1;
    while k < v.len() && v[k] != ']'
        invariant
            1 <= k <= v.len(),
            v@ == s@,
            rest == s@.drop_first(),
            forall|j: int| 1 <= j < k ==> v@[j] != ']',
        decreases v.len() - k,
    {
        k += 1;
    }
    if k == v.len() {
        assert(!rest.contains(']')) by {
            if rest.contains(']') {
                let j = choose|j: int| 0 <= j < rest.len() && rest[j] == ']';
                assert(v@[j + 1] == ']');
            }
        }
        return None;
    }
    proof {
        assert(first_pos(rest, ']', k - 1)) by {
            assert forall|j: int| 0 <= j < k - 1 implies rest[j] != ']' by {
                assert(rest[j] == v@[j + 1]);
            }
        }
        assert(rest.contains(']')) by {
            assert(rest[k - 1] == ']');
        }
        let c = choose|i: int| first_pos(rest, ']', i);
        if c < k - 1 {
            assert(rest[c] == ']');
        } else if k - 1 < c {
            assert(rest[k - 1] != ']');
        }
        assert(c == k - 1);
        assert(v@.subrange(1, k as int) =~= rest.take(k - 1));
        assert(v@.subrange(k + 1, v.len() as int) =~= rest.skip(k as int));
    }
    let tag = slice(&v, 1, k);
    let after = trim_start_chars(&slice(&v, k + 1, v.len()));
    Some((string_of(&tag), string_of(&after)))
}

/// A piece of a lyric line for word timing: a run of text, or a `<…>` tag
/// with its contents (`closed` is false for a `<` whose `>` never comes).
#[derive(Debug, Clone, PartialEq, Eq)]
pub enum WordToken {
    Text(String),
    Tag { contents: String, closed: bool },
}

/// The pieces of `s` as spec values: `(is_tag, text or tag contents, closed)`.
pub open spec fn word_tokens(s: Seq<char>) -> Seq<(bool, Seq<char>, bool)>
    decreases s.len(),
{
    if s.len() == 0 {
        seq![]
    } else if s[0] != '<' {
        let k = index_of_char(s, '<');
        proof {
            lemma_index_of_char(s, '<');
        }
        seq![(false, s.take(k), true)] + word_tokens(s.skip(k))
    } else {
        let rest = s.drop_first();
        let m = index_of_char(rest, '>');
        proof {
            lemma_index_of_char(rest, '>');
        }
        if m < rest.len() {
            seq![(true, rest.take(m), true)] + word_tokens(rest.skip(m + 1))
        } else {
            seq![(true, rest, false)]
        }
    }
}

/// The spec value of a token.
pub open spec fn token_view(t: WordToken) -> (bool, Seq<char>, bool) {
    match t {
        WordToken::Text(x) => (false, x@, true),
        WordToken::Tag { contents, closed } => (true, contents@, closed),
    }
}

/// Splits a lyric line into text runs and `<…>` tags, in order.
pub fn split_word_tokens(s: &str) -> (r: Vec<WordToken>)
    ensures
        r.len() == word_tokens(s@).len(),
        forall|i: int| 0 <= i < r.len() ==> token_view(#[trigger] r[i]) == word_tokens(s@)[i],
{
    let v = chars_of(s);
    let mut r: Vec<WordToken> = Vec::new();
    let mut pos: usize = 0;
    let ghost done: Seq<(bool, Seq<char>, bool)> = seq![];
    assert(v@.skip(0) =~= v@);
    while pos < v.len()
        invariant
            pos <= v.len(),
            v@ == s@,
            r.len() == done.len(),
            forall|i: int| 0 <= i < r.len() ==> token_view(#[trigger] r[i]) == done[i],
            word_tokens(s@) == done + word_tokens(v@.skip(pos as int)),
        decreases v.len() - pos,
    {
        let ghost rest = v@.skip(pos as int);
        if v[pos] != '<' {
            let mut k = pos;
            while k < v.len() && v[k] != '<'
                invariant
                    pos <= k <= v.len(),
                    forall|m: int| pos <= m < k ==> v@[m] != '<',
                decreases v.len() - k,
            {
                k += 1;
            }
            proof {
                lemma_index_of_char(rest, '<');
                let j = index_of_char(rest, '<');
                if j < k - pos {
                    assert(rest[j] == v@[pos + j]);
                }
                if k - pos < j {
                    assert(rest[k - pos] == v@[k as int]);
                }
                assert(j == k - pos);
                assert(rest.skip(k - pos) =~= v@.skip(k as int));
            }
            let text = slice(&v, pos, k);
            assert(text@ =~= rest.take(k - pos));
            proof {
                done = done.push((false, rest.take(k - pos), true));
                assert(word_tokens(s@) =~= done + word_tokens(v@.skip(k as int)));
            }
            r.push(WordToken::Text(string_of(&text)));
            pos = k;
        } else {
            let ghost after = rest.drop_first();
            let mut k = pos + 1;
            while k < v.len() && v[k] != '>'
                invariant
                    pos + 1 <= k <= v.len(),
                    forall|m: int| pos + 1 <= m < k ==> v@[m] != '>',
                decreases v.len() - k,
            {
                k += 1;
            }
            proof {
                lemma_index_of_char(after, '>');
                let j = index_of_char(after, '>');
                if j < k - pos - 1 {
                    assert(after[j] == v@[pos + 1 + j]);
                }
                if k - pos - 1 < j {
                    assert(after[k - pos - 1] == v@[k as int]);
                }
                assert(j == k - pos - 1);
            }
            let contents = slice(&v, pos + 1, k);
            assert(contents@ =~= after.take(k - pos - 1));
            if k < v.len() {
                proof {
                    assert(after.skip(k - pos) =~= v@.skip(k + 1));
                    done = done.push((true, after.take(k - pos - 1), true));
                    assert(word_tokens(s@) =~= done + word_tokens(v@.skip(k + 1)));
                }
                r.push(WordToken::Tag { contents: string_of(&contents), closed: true });
                pos = k + 1;
            } else {
                proof {
                    assert(after.take(k - pos - 1) =~= after);
                    done = done.push((true, after, false));
                    assert(v@.skip(v.len() as int) =~= Seq::<char>::empty());
                    assert(word_tokens(s@) =~= done + word_tokens(v@.skip(v.len() as int)));
                }
                r.push(WordToken::Tag { contents: string_of(&contents), closed: false });
                pos = v.len();
            }
        }
    }
    assert(word_tokens(s@) =~= done);
    r
}

} // verus!
