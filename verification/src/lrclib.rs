//! LRCLIB lookups: the order of the cache, the exact-signature request and the
//! search, which search result to use, and the name of a query's cache file.
//! The HTTP requests, JSON decoding and file access happen outside the library.
use crate::paths::{join, join_into};
use crate::query::{opt_chars, query_chars, query_key, TrackQuery};
use crate::text::{chars_of, push_str, string_of, trim, trim_chars};
use std::collections::hash_map::DefaultHasher;
use std::hash::Hasher;
use vstd::prelude::*;
use vstd::std_specs::hash::DefaultHasherAdditionalSpecFns;
use vstd::utf8::encode_utf8;

verus! {

/// The lower-case hexadecimal digit for `d` (`0 <= d < 16`).
pub open spec fn hex_digit(d: nat) -> char {
    if d < 10 {
        ((d + 48) as u32) as char
    } else {
        ((d + 87) as u32) as char
    }
}

/// The last `width` hexadecimal digits of `n`, zero-padded (what `{:0width$x}`
/// writes for a value below `16^width`).
pub open spec fn hex_fixed(n: nat, width: nat) -> Seq<char>
    decreases width,
{
    if width == 0 {
        seq![]
    } else {
        hex_fixed(n / 16, (width - 1) as nat).push(hex_digit(n % 16))
    }
}

fn push_hex(out: &mut Vec<char>, n: u64, width: u32)
    ensures
        final(out)@ == old(out)@ + hex_fixed(n as nat, width as nat),
    decreases width,
{
    if width > 0 {
        push_hex(out, n / 16, width - 1);
        let d: u8 = (n % 16) as u8;
        let c = if d < 10 {
            (d + 48) as char
        } else {
            (d + 87) as char
        };
        out.push(c);
        assert(out@ =~= old(out)@ + hex_fixed(n as nat, width as nat));
    } else {
        assert(out@ =~= old(out)@ + hex_fixed(n as nat, width as nat));
    }
}

/// The hash that names a key's cache file: std's `DefaultHasher` fed the key
/// the way `str`'s `Hash` feeds a hasher (its UTF-8 bytes, then a `0xff` byte).
pub open spec fn key_hash(key: Seq<char>) -> u64 {
    DefaultHasher::spec_finish(seq![encode_utf8(key), seq![0xffu8]])
}

fn hash_key(key: &str) -> (h: u64)
    ensures
        h == key_hash(key@),
{
    let mut hasher = DefaultHasher::new();
    hasher.write(key.as_bytes());
    let end: [u8; 1] = [0xffu8];
    let tail = end.as_slice();
    assert(tail@ =~= seq![0xffu8]) by {
        assert(end@[0] == 0xffu8);
    }
    hasher.write(tail);
    let h = hasher.finish();
    assert(hasher@ =~= seq![encode_utf8(key@), seq![0xffu8]]);
    h
}

/// The cache file name of a query: the hash of its key as 16 hex digits, then `.lrc`.
pub open spec fn cache_file_name(q: TrackQuery) -> Seq<char> {
    hex_fixed(key_hash(query_key(query_chars(q))) as nat, 16) + ".lrc"@
}

/// A cache file name is 16 lower-case hex digits and `.lrc`, so never a path;
/// queries with the same key share it.
pub proof fn lemma_cache_file_name(q: TrackQuery, other: TrackQuery)
    ensures
        cache_file_name(q).len() == 20,
        forall|k: int|
            0 <= k < 16 ==> {
                let c = #[trigger] cache_file_name(q)[k];
                ('0' <= c && c <= '9') || ('a' <= c && c <= 'f')
            },
        cache_file_name(q).skip(16) == ".lrc"@,
        query_key(query_chars(q)) == query_key(query_chars(other)) ==> cache_file_name(q)
            == cache_file_name(other),
{
    reveal_strlit(".lrc");
    let h = key_hash(query_key(query_chars(q))) as nat;
    lemma_hex_fixed(h, 16);
    assert(cache_file_name(q).skip(16) =~= ".lrc"@);
    assert forall|k: int| 0 <= k < 16 implies {
        let c = #[trigger] cache_file_name(q)[k];
        ('0' <= c && c <= '9') || ('a' <= c && c <= 'f')
    } by {
        assert(cache_file_name(q)[k] == hex_fixed(h, 16)[k]);
    }
}

/// `hex_fixed(n, width)` has `width` characters, each a lower-case hex digit.
pub proof fn lemma_hex_fixed(n: nat, width: nat)
    ensures
        hex_fixed(n, width).len() == width,
        forall|k: int|
            0 <= k < width ==> {
                let c = #[trigger] hex_fixed(n, width)[k];
                ('0' <= c && c <= '9') || ('a' <= c && c <= 'f')
            },
    decreases width,
{
    if width > 0 {
        lemma_hex_fixed(n / 16, (width - 1) as nat);
        let d = n % 16;
        assert forall|k: int| 0 <= k < width implies {
            let c = #[trigger] hex_fixed(n, width)[k];
            ('0' <= c && c <= '9') || ('a' <= c && c <= 'f')
        } by {
            if k < width - 1 {
                assert(hex_fixed(n, width)[k] == hex_fixed(n / 16, (width - 1) as nat)[k]);
            } else {
                assert(hex_fixed(n, width)[k] == hex_digit(d));
                if d < 10 {
                    assert(((d + 48) as u32) as char == hex_digit(d));
                } else {
                    assert(((d + 87) as u32) as char == hex_digit(d));
                }
            }
        }
    }
}

/// The cache file of a query inside the cache directory `dir`; `None` when
/// there is no cache directory.
pub fn cache_file(dir: Option<&str>, q: &TrackQuery) -> (r: Option<String>)
    ensures
        match dir {
            Some(d) => r matches Some(p) && p@ == join(d@, cache_file_name(*q)),
            None => r is None,
        },
{
    match dir {
        None => None,
        Some(d) => {
            let key = q.key();
            let h = hash_key(key.as_str());
            let mut name: Vec<char> = Vec::new();
            push_hex(&mut name, h, 16);
            push_str(&mut name, ".lrc");
            let out = join_into(chars_of(d), &name);
            assert(name@ =~= cache_file_name(*q));
            Some(string_of(&out))
        },
    }
}

/// `distances[i]` is the distance of search result `i` from the wanted
/// duration, `None` when it has no usable synced lyrics. `i` is the result to
/// use: a usable one at the smallest distance, the first such.
pub open spec fn is_best(distances: Seq<Option<i64>>, i: int) -> bool {
    &&& 0 <= i < distances.len()
    &&& distances[i] is Some
    &&& forall|j: int|
        0 <= j < distances.len() && (#[trigger] distances[j]) is Some ==> distances[i]->0
            <= distances[j]->0
    &&& forall|j: int|
        0 <= j < i && (#[trigger] distances[j]) is Some ==> distances[i]->0 < distances[j]->0
}

/// Among search results, the one to use: the first usable result at the
/// smallest distance (with no known duration, every usable result is at
/// distance 0, so this is the first usable one). `None` when none is usable.
pub fn best_match(distances: &Vec<Option<i64>>) -> (r: Option<usize>)
    ensures
        match r {
            Some(i) => is_best(distances@, i as int),
            None => forall|j: int| 0 <= j < distances.len() ==> (#[trigger] distances@[j]) is None,
        },
{
    let mut best: Option<usize> = None;
    let mut k: usize = 0;
    while k < distances.len()
        invariant
            k <= distances.len(),
            match best {
                Some(i) => i < k && is_best(distances@.take(k as int), i as int),
                None => forall|j: int| 0 <= j < k ==> (#[trigger] distances@[j]) is None,
            },
        decreases distances.len() - k,
    {
        let ghost prefix = distances@.take(k as int);
        let ghost next = distances@.take(k + 1);
        assert forall|j: int| 0 <= j < k implies #[trigger] next[j] == prefix[j] by {}
        if let Some(d) = distances[k] {
            match best {
                None => {
                    best = Some(k);
                    assert(is_best(next, k as int)) by {
                        assert forall|j: int|
                            0 <= j < next.len() && (#[trigger] next[j]) is Some implies next[k as int]->0
                            <= next[j]->0 by {
                            if j < k {
                                assert(distances@[j] is None);
                            }
                        }
                        assert forall|j: int|
                            0 <= j < k && (#[trigger] next[j]) is Some implies next[k as int]->0
                            < next[j]->0 by {
                            assert(distances@[j] is None);
                        }
                    }
                },
                Some(i) => {
                    let cur = distances[i];
                    if let Some(c) = cur {
                        if d < c {
                            best = Some(k);
                            assert(is_best(next, k as int)) by {
                                assert forall|j: int|
                                    0 <= j < next.len() && (#[trigger] next[j]) is Some implies next[k as int]->0
                                    <= next[j]->0 by {
                                    if j < k {
                                        assert(prefix[j] is Some);
                                    }
                                }
                                assert forall|j: int|
                                    0 <= j < k && (#[trigger] next[j]) is Some implies next[k as int]->0
                                    < next[j]->0 by {
                                    assert(prefix[j] is Some);
                                }
                            }
                        } else {
                            assert(is_best(next, i as int)) by {
                                assert(prefix[i as int] is Some);
                                assert forall|j: int|
                                    0 <= j < next.len() && (#[trigger] next[j]) is Some implies next[i as int]->0
                                    <= next[j]->0 by {
                                    if j < k {
                                        assert(prefix[j] is Some);
                                    }
                                }
                                assert forall|j: int|
                                    0 <= j < i && (#[trigger] next[j]) is Some implies next[i as int]->0
                                    < next[j]->0 by {
                                    assert(prefix[j] is Some);
                                }
                            }
                        }
                    } else {
                        assert(prefix[i as int] is Some);
                    }
                },
            }
        } else {
            match best {
                Some(i) => {
                    assert(is_best(next, i as int)) by {
                        assert(prefix[i as int] is Some);
                        assert forall|j: int|
                            0 <= j < next.len() && (#[trigger] next[j]) is Some implies next[i as int]->0
                            <= next[j]->0 by {
                            if j < k {
                                assert(prefix[j] is Some);
                            }
                        }
                        assert forall|j: int|
                            0 <= j < i && (#[trigger] next[j]) is Some implies next[i as int]->0
                            < next[j]->0 by {
                            assert(prefix[j] is Some);
                        }
                    }
                },
                None => {},
            }
        }
        k += 1;
    }
    assert(distances@.take(distances.len() as int) =~= distances@);
    best
}

/// Where a lyrics lookup stands: the on-disk cache is consulted first, then
/// the exact-signature request, then a search; lyrics found on the network are
/// saved (to the cache and the song library) before they are returned.
#[derive(Debug, Clone, PartialEq, Eq)]
pub enum Stage {
    AwaitCache,
    AwaitGet,
    AwaitSearch,
    AwaitSave(String),
    Finished,
}

/// What a lyrics lookup asks its caller to do next.
#[derive(Debug, Clone, PartialEq, Eq)]
pub enum LookupAction {
    /// Read the query's cache file.
    ReadCache,
    /// Make the exact-signature request.
    Get,
    /// Search, and report the synced lyrics of the best match.
    Search,
    /// Save these lyrics to the cache and the song library.
    Save(String),
    /// The lookup is over, with these lyrics if any.
    Done(Option<String>),
}

/// What the caller reports back.
#[derive(Debug, Clone, PartialEq, Eq)]
pub enum LookupEvent {
    /// The cache file's contents, if it could be read.
    CacheRead(Option<String>),
    /// The exact-signature record, if one came back: its synced lyrics and
    /// whether it is instrumental.
    GetDone(Option<(Option<String>, bool)>),
    /// The synced lyrics of the best search result, if any.
    SearchDone(Option<String>),
    /// The lyrics were saved (or saving failed: it is best-effort).
    Saved,
}

/// Lyrics that can be shown: present and not blank.
pub open spec fn usable(lyrics: Option<Seq<char>>) -> bool {
    lyrics matches Some(s) && trim(s).len() > 0
}

/// The stage that follows `stage` on `event`, with the action it asks for.
/// An event that does not answer the pending request ends the lookup empty.
pub open spec fn lookup_step(stage: Stage, event: LookupEvent) -> (Stage, LookupAction) {
    match (stage, event) {
        (Stage::AwaitCache, LookupEvent::CacheRead(c)) => match c {
            Some(text) if text@.len() > 0 => (Stage::Finished, LookupAction::Done(Some(text))),
            _ => (Stage::AwaitGet, LookupAction::Get),
        },
        (Stage::AwaitGet, LookupEvent::GetDone(record)) => match record {
            Some((lyrics, instrumental)) => if usable(opt_chars(lyrics)) {
                (Stage::AwaitSave(lyrics->0), LookupAction::Save(lyrics->0))
            } else if instrumental {
                (Stage::Finished, LookupAction::Done(None))
            } else {
                (Stage::AwaitSearch, LookupAction::Search)
            },
            None => (Stage::AwaitSearch, LookupAction::Search),
        },
        (Stage::AwaitSearch, LookupEvent::SearchDone(best)) => if usable(opt_chars(best)) {
            (Stage::AwaitSave(best->0), LookupAction::Save(best->0))
        } else {
            (Stage::Finished, LookupAction::Done(None))
        },
        (Stage::AwaitSave(lyrics), LookupEvent::Saved) => (Stage::Finished, LookupAction::Done(Some(lyrics))),
        _ => (Stage::Finished, LookupAction::Done(None)),
    }
}

/// A lyrics lookup for one query, driven by its caller one event at a time.
pub struct Lookup {
    stage: Stage,
}

fn is_usable(lyrics: &Option<String>) -> (r: bool)
    ensures
        r == usable(opt_chars(*lyrics)),
{
    match lyrics {
        Some(s) => trim_chars(&chars_of(s.as_str())).len() > 0,
        None => false,
    }
}

impl Lookup {
    /// The lookup's stage.
    pub closed spec fn stage(self) -> Stage {
        self.stage
    }

    /// Starts a lookup: it first asks for the cache.
    pub fn new() -> (r: (Lookup, LookupAction))
        ensures
            r.0.stage() == Stage::AwaitCache,
            r.1 == LookupAction::ReadCache,
    {
        (Lookup { stage: Stage::AwaitCache }, LookupAction::ReadCache)
    }

    /// Takes the caller's report and says what to do next.
    pub fn next(&mut self, event: LookupEvent) -> (action: LookupAction)
        ensures
            (final(self).stage(), action) == lookup_step(old(self).stage(), event),
    {
        let mut stage = Stage::Finished;
        std::mem::swap(&mut stage, &mut self.stage);
        let (next, action) = match (stage, event) {
            (Stage::AwaitCache, LookupEvent::CacheRead(c)) => match c {
                Some(text) => if !text.as_str().is_empty() {
                    (Stage::Finished, LookupAction::Done(Some(text)))
                } else {
                    (Stage::AwaitGet, LookupAction::Get)
                },
                None => (Stage::AwaitGet, LookupAction::Get),
            },
            (Stage::AwaitGet, LookupEvent::GetDone(record)) => match record {
                Some((lyrics, instrumental)) => if is_usable(&lyrics) {
                    let text = lyrics.unwrap();
                    (Stage::AwaitSave(text.clone()), LookupAction::Save(text))
                } else if instrumental {
                    (Stage::Finished, LookupAction::Done(None))
                } else {
                    (Stage::AwaitSearch, LookupAction::Search)
                },
                None => (Stage::AwaitSearch, LookupAction::Search),
            },
            (Stage::AwaitSearch, LookupEvent::SearchDone(best)) => if is_usable(&best) {
                let text = best.unwrap();
                (Stage::AwaitSave(text.clone()), LookupAction::Save(text))
            } else {
                (Stage::Finished, LookupAction::Done(None))
            },
            (Stage::AwaitSave(lyrics), LookupEvent::Saved) => (
                Stage::Finished,
                LookupAction::Done(Some(lyrics)),
            ),
            _ => (Stage::Finished, LookupAction::Done(None)),
        };
        self.stage = next;
        action
    }
}

/// Only lyrics that came from the network, usable, are ever saved: a cache
/// hit is returned as it is, and a miss is never cached (it may be a transient
/// failure, or lyrics not published yet).
pub proof fn lemma_only_found_lyrics_are_saved(stage: Stage, event: LookupEvent)
    ensures
        lookup_step(stage, event).1 matches LookupAction::Save(text) ==> usable(Some(text@)) && (
        event == LookupEvent::GetDone(Some((Some(text), true))) || event == LookupEvent::GetDone(
            Some((Some(text), false)),
        ) || event == LookupEvent::SearchDone(Some(text))),
        event matches LookupEvent::CacheRead(c) ==> !(lookup_step(stage, event).1 is Save),
{
    match (stage, event) {
        (Stage::AwaitGet, LookupEvent::GetDone(Some((lyrics, instrumental)))) => {
            if usable(opt_chars(lyrics)) {
                assert(lyrics == Some(lyrics->0));
            }
        },
        (Stage::AwaitSearch, LookupEvent::SearchDone(best)) => {
            if usable(opt_chars(best)) {
                assert(best == Some(best->0));
            }
        },
        _ => {},
    }
}

/// Saved lyrics are what the lookup then returns: after `Save(text)`, the
/// `Saved` report ends the lookup with `text`.
pub proof fn lemma_saved_lyrics_are_returned(stage: Stage, event: LookupEvent)
    ensures
        lookup_step(stage, event).1 matches LookupAction::Save(text) ==> lookup_step(
            lookup_step(stage, event).0,
            LookupEvent::Saved,
        ) == (Stage::Finished, LookupAction::Done(Some(text))),
{
}

/// A lookup asks for at most four things: the cache, the exact request, a
/// search, and a save; then it is done. Every event moves it forward.
pub open spec fn steps_left(stage: Stage) -> nat {
    match stage {
        Stage::AwaitCache => 4,
        Stage::AwaitGet => 3,
        Stage::AwaitSearch => 2,
        Stage::AwaitSave(_) => 1,
        Stage::Finished => 0,
    }
}

/// Each event brings a pending lookup closer to its end, so a lookup always finishes.
pub proof fn lemma_lookup_progresses(stage: Stage, event: LookupEvent)
    requires
        stage != Stage::Finished,
    ensures
        steps_left(lookup_step(stage, event).0) < steps_left(stage),
        lookup_step(stage, event).0 == Stage::Finished <==> lookup_step(stage, event).1 is Done,
{
}

} // verus!
