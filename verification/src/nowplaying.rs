//! The macOS now-playing probe: the AppleScript that asks a player app for its
//! current track, and the reading of the pipe-delimited line it prints
//! (`name|artist|album|duration|position|state`). Running `osascript` and
//! reading the numbers as seconds happen outside the library.
use crate::library::eq_ignore_ascii_case;
use crate::text::{
    chars_of, index_of_char, lemma_index_of_char, match_at, push_str, slice, string_of, trim,
    trim_chars,
};
use vstd::prelude::*;

verus! {

/// The pieces of `s` between occurrences of `sep`, as `str::split` yields
/// them (an empty `s` gives one empty piece).
pub open spec fn split_on(s: Seq<char>, sep: char) -> Seq<Seq<char>>
    decreases s.len(),
{
    let k = index_of_char(s, sep);
    proof {
        lemma_index_of_char(s, sep);
    }
    if k < s.len() {
        seq![s.take(k)] + split_on(s.skip(k + 1), sep)
    } else {
        seq![s]
    }
}

/// The pieces of `s` between occurrences of `sep` (see [`split_on`]).
pub fn split_chars(s: &Vec<char>, sep: char) -> (r: Vec<Vec<char>>)
    ensures
        r.len() == split_on(s@, sep).len(),
        forall|i: int| 0 <= i < r.len() ==> #[trigger] r[i]@ == split_on(s@, sep)[i],
{
    let mut r: Vec<Vec<char>> = Vec::new();
    let mut pos: usize = 0;
    let ghost done: Seq<Seq<char>> = seq![];
    assert(s@.skip(0) =~= s@);
    loop
        invariant
            pos <= s.len(),
            r.len() == done.len(),
            forall|i: int| 0 <= i < r.len() ==> #[trigger] r[i]@ == done[i],
            split_on(s@, sep) == done + split_on(s@.skip(pos as int), sep),
        ensures
            r.len() == split_on(s@, sep).len(),
            forall|i: int| 0 <= i < r.len() ==> #[trigger] r[i]@ == split_on(s@, sep)[i],
        decreases s.len() - pos,
    {
        let ghost rest = s@.skip(pos as int);
        let mut k = pos;
        while k < s.len() && s[k] != sep
            invariant
                pos <= k <= s.len(),
                forall|m: int| pos <= m < k ==> s@[m] != sep,
            decreases s.len() - k,
        {
            k += 1;
        }
        proof {
            lemma_index_of_char(rest, sep);
            let j = index_of_char(rest, sep);
            if j < k - pos {
                assert(rest[j] == s@[pos + j]);
            }
            if k - pos < j {
                assert(rest[k - pos] == s@[k as int]);
            }
            assert(j == k - pos);
        }
        let piece = slice(s, pos, k);
        assert(piece@ =~= rest.take(k - pos));
        if k < s.len() {
            proof {
                assert(rest.skip(k - pos + 1) =~= s@.skip(k + 1));
                done = done.push(rest.take(k - pos));
                assert(split_on(s@, sep) =~= done + split_on(s@.skip(k + 1), sep));
            }
            r.push(piece);
            pos = k + 1;
        } else {
            proof {
                assert(rest.take(k - pos) =~= rest);
                done = done.push(rest);
                assert(split_on(s@, sep) =~= done);
            }
            r.push(piece);
            return r;
        }
    }
}

/// The AppleScript that prints `app`'s current track as one pipe-delimited
/// line, or an empty string. The `is running` guard keeps the probe from
/// launching the app.
pub open spec fn script_text(app: Seq<char>) -> Seq<char> {
    "if application \""@ + app + "\" is running then\ntell application \""@ + app
        + "\"\nif player state is not stopped then\nset t to current track\nreturn (name of t) & \"|\" & (artist of t) & \"|\" & (album of t) & \"|\" & (duration of t) & \"|\" & (player position) & \"|\" & (player state as text)\nend if\nend tell\nend if\nreturn \"\""@
}

/// Builds the guarded AppleScript that returns a pipe-delimited now-playing
/// line, or an empty string.
pub fn now_playing_script(app: &str) -> (r: String)
    ensures
        r@ == script_text(app@),
{
    let mut out: Vec<char> = Vec::new();
    push_str(&mut out, "if application \"");
    push_str(&mut out, app);
    push_str(&mut out, "\" is running then\ntell application \"");
    push_str(&mut out, app);
    push_str(
        &mut out,
        "\"\nif player state is not stopped then\nset t to current track\nreturn (name of t) & \"|\" & (artist of t) & \"|\" & (album of t) & \"|\" & (duration of t) & \"|\" & (player position) & \"|\" & (player state as text)\nend if\nend tell\nend if\nreturn \"\"",
    );
    assert(out@ =~= script_text(app@));
    string_of(&out)
}

/// The fields of one now-playing line, as text; the numbers are read by the caller.
#[derive(Debug, Clone, PartialEq)]
pub struct NowPlayingLine {
    pub title: String,
    pub artist: String,
    pub album: String,
    /// The track length, with a `,` decimal separator turned into `.`.
    pub duration: String,
    /// The playback position, with a `,` decimal separator turned into `.`.
    pub position: String,
    /// The player is not in the `playing` state.
    pub paused: bool,
    /// The app reports the length in milliseconds (Spotify) rather than seconds.
    pub duration_in_ms: bool,
}

/// `s` with each `,` turned into `.` (a locale's decimal comma).
pub open spec fn decimal_point(s: Seq<char>) -> Seq<char> {
    Seq::new(s.len(), |i: int| if s[i] == ',' { '.' } else { s[i] })
}

/// The reading of a now-playing line printed for `app`: `None` when it is
/// blank or has fewer than six fields; else the trimmed text fields, the
/// numbers with a decimal point, whether the state is other than `playing`,
/// and whether the app is Spotify (which reports milliseconds).
pub open spec fn now_playing_fields(stdout: Seq<char>, app: Seq<char>) -> Option<
    (Seq<char>, Seq<char>, Seq<char>, Seq<char>, Seq<char>, bool, bool),
> {
    let line = trim(stdout);
    let f = split_on(line, '|');
    if line.len() == 0 || f.len() < 6 {
        None
    } else {
        Some(
            (
                trim(f[0]),
                trim(f[1]),
                trim(f[2]),
                decimal_point(trim(f[3])),
                decimal_point(trim(f[4])),
                !eq_ignore_ascii_case(trim(f[5]), "playing"@),
                eq_ignore_ascii_case(app, "Spotify"@),
            ),
        )
    }
}

fn with_decimal_point(s: &Vec<char>) -> (r: String)
    ensures
        r@ == decimal_point(s@),
{
    let mut out: Vec<char> = Vec::new();
    let mut k: usize = 0;
    while k < s.len()
        invariant
            k <= s.len(),
            out@ == decimal_point(s@.take(k as int)),
        decreases s.len() - k,
    {
        let c = s[k];
        out.push(
            if c == ',' {
                '.'
            } else {
                c
            },
        );
        k += 1;
        assert(out@ =~= decimal_point(s@.take(k as int)));
    }
    assert(s@.take(s.len() as int) =~= s@);
    string_of(&out)
}

fn eq_ignore_case(a: &Vec<char>, b: &str) -> (r: bool)
    ensures
        r == eq_ignore_ascii_case(a@, b@),
{
    let bv = chars_of(b);
    a.len() == bv.len() && match_at(a, &bv, 0, true)
}

/// Reads one pipe-delimited now-playing line printed for `app`; `None` for
/// empty or short output.
pub fn parse_now_playing_line(stdout: &str, app: &str) -> (r: Option<NowPlayingLine>)
    ensures
        match r {
            Some(l) => now_playing_fields(stdout@, app@) == Some(
                (
                    l.title@,
                    l.artist@,
                    l.album@,
                    l.duration@,
                    l.position@,
                    l.paused,
                    l.duration_in_ms,
                ),
            ),
            None => now_playing_fields(stdout@, app@) is None,
        },
{
    let line = trim_chars(&chars_of(stdout));
    if line.len() == 0 {
        return None;
    }
    let f = split_chars(&line, '|');
    if f.len() < 6 {
        return None;
    }
    let state = trim_chars(&f[5]);
    proof {
        reveal_strlit("playing");
        reveal_strlit("Spotify");
    }
    let paused = !eq_ignore_case(&state, "playing");
    let in_ms = eq_ignore_case(&chars_of(app), "Spotify");
    Some(
        NowPlayingLine {
            title: string_of(&trim_chars(&f[0])),
            artist: string_of(&trim_chars(&f[1])),
            album: string_of(&trim_chars(&f[2])),
            duration: with_decimal_point(&trim_chars(&f[3])),
            position: with_decimal_point(&trim_chars(&f[4])),
            paused,
            duration_in_ms: in_ms,
        },
    )
}

} // verus!
