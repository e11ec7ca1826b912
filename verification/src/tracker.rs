//! Decisions of the now-playing poll loop and of the LRCLIB HTTP client.
//!
//! The loop itself (polling the player, fetching, sleeping, sending events) is
//! I/O and runs outside the library; the library decides, per poll, whether
//! lyrics must be fetched and which event the poll produces, and, per HTTP
//! attempt, whether to retry.
//!
//! Lyrics are fetched on every track change. When a new track comes back with
//! no lyrics, the fetch is re-attempted (one per poll) up to [`FETCH_RETRIES`]
//! more times, covering transient outages; once lyrics are found, no fetch
//! happens until the track changes.
use crate::query::opt_chars;
use crate::text::trim_chars;
use crate::text::chars_of;
use crate::text::trim;
use vstd::prelude::*;

verus! {

/// Times to re-attempt a lyrics fetch (one per poll) when a track first comes back empty.
pub const FETCH_RETRIES: u32 = 3;

/// Extra HTTP attempts after the first on a transient failure (network error / 5xx).
pub const HTTP_RETRIES: u32 = 2;

/// What a poll hands to the app.
#[derive(Debug, Clone, Copy, PartialEq, Eq, Structural)]
pub enum Emit {
    /// A (possibly new) track with whatever lyrics were fetched.
    Track,
    /// A position-only update for the current track.
    Sync,
}

/// Whether a poll of the track `key` fetches lyrics, while following the
/// track `followed` with `retries` retries left: on a change of track, or
/// while retries remain.
pub open spec fn fetches(followed: Option<Seq<char>>, retries: nat, key: Option<Seq<char>>) -> bool {
    key != followed || retries > 0
}

/// Retries left once a poll of `key` has started: a new track gets the full
/// [`FETCH_RETRIES`]; the same track keeps what it had.
pub open spec fn retries_on_observe(followed: Option<Seq<char>>, retries: nat, key: Option<Seq<char>>) -> nat {
    if key != followed {
        FETCH_RETRIES as nat
    } else {
        retries
    }
}

/// Retries left and the event emitted when a poll ends. `pending` is `None`
/// for a poll that did not fetch, else whether its track had changed; `found`
/// tells whether the fetch brought lyrics.
pub open spec fn finish_outcome(pending: Option<bool>, retries: nat, found: bool) -> (nat, Emit) {
    match pending {
        None => (retries, Emit::Sync),
        Some(changed) => if found {
            (0, Emit::Track)
        } else if changed {
            (retries, Emit::Track)
        } else {
            ((retries - 1) as nat, Emit::Sync)
        },
    }
}

/// One whole poll of the track `key` whose fetch (if any) brings lyrics when
/// `found`: the retries left after it, and whether it fetched.
pub open spec fn poll(followed: Option<Seq<char>>, retries: nat, key: Option<Seq<char>>, found: bool) -> (nat, bool) {
    let fetch = fetches(followed, retries, key);
    let r = retries_on_observe(followed, retries, key);
    let pending = if fetch {
        Some(key != followed)
    } else {
        None
    };
    (finish_outcome(pending, r, found).0, fetch)
}

/// The number of fetches made by `n` polls of the track `key` whose fetches
/// all come back empty, starting from following `followed` with `retries` left.
pub open spec fn empty_poll_fetches(followed: Option<Seq<char>>, retries: nat, key: Option<Seq<char>>, n: nat) -> nat
    decreases n,
{
    if n == 0 {
        0
    } else {
        let (r, fetched) = poll(followed, retries, key, false);
        (if fetched {
            1nat
        } else {
            0nat
        }) + empty_poll_fetches(key, r, key, (n - 1) as nat)
    }
}

/// Track-change and fetch-retry state, driven one poll at a time:
/// [`Tracker::observe`] says whether to fetch, [`Tracker::finish`] which event to emit.
pub struct Tracker {
    current_key: Option<String>,
    retries_left: u32,
    /// The open poll that fetched, with whether its track had changed.
    awaiting: Option<bool>,
}

impl Tracker {
    #[verifier::type_invariant]
    spec fn inv(self) -> bool {
        &&& self.retries_left <= FETCH_RETRIES
        &&& self.awaiting == Some(false) ==> self.retries_left > 0
    }

    /// Key of the track being followed.
    pub closed spec fn key(self) -> Option<Seq<char>> {
        opt_chars(self.current_key)
    }

    /// Fetches still allowed for the current track after an empty result.
    pub closed spec fn retries(self) -> nat {
        self.retries_left as nat
    }

    /// The open poll that fetched, with whether its track had changed.
    pub closed spec fn pending(self) -> Option<bool> {
        self.awaiting
    }

    /// A tracker following no track yet.
    pub fn new() -> (t: Tracker)
        ensures
            t.key() is None,
            t.retries() == 0,
            t.pending() is None,
    {
        Tracker { current_key: None, retries_left: 0, awaiting: None }
    }

    /// Starts a poll for the track with `key`; returns whether lyrics must be
    /// fetched now: on a track change, or while retrying a track that came back empty.
    pub fn observe(&mut self, key: Option<String>) -> (fetch: bool)
        ensures
            final(self).key() == opt_chars(key),
            final(self).retries() == retries_on_observe(old(self).key(), old(self).retries(), opt_chars(key)),
            fetch == fetches(old(self).key(), old(self).retries(), opt_chars(key)),
            final(self).pending() == if fetch {
                Some(opt_chars(key) != old(self).key())
            } else {
                None
            },
    {
        proof {
            use_type_invariant(&*self);
        }
        let changed = match (&key, &self.current_key) {
            (Some(a), Some(b)) => !a.eq(b),
            (None, None) => false,
            _ => true,
        };
        let retries_left = if changed {
            FETCH_RETRIES
        } else {
            self.retries_left
        };
        let fetch = changed || retries_left > 0;
        *self = Tracker {
            current_key: key,
            retries_left,
            awaiting: if fetch {
                Some(changed)
            } else {
                None
            },
        };
        fetch
    }

    /// Ends the poll: `found` tells whether the fetch brought lyrics. A poll
    /// that fetched emits the track when lyrics were found or the track is new;
    /// a failed retry uses up one retry and emits a position update.
    pub fn finish(&mut self, found: bool) -> (e: Emit)
        ensures
            final(self).key() == old(self).key(),
            final(self).pending() is None,
            (final(self).retries(), e) == finish_outcome(old(self).pending(), old(self).retries(), found),
    {
        proof {
            use_type_invariant(&*self);
        }
        let (retries_left, e) = match self.awaiting {
            None => (self.retries_left, Emit::Sync),
            Some(changed) => if found {
                (0, Emit::Track)
            } else if changed {
                (self.retries_left, Emit::Track)
            } else {
                (self.retries_left - 1, Emit::Sync)
            },
        };
        self.awaiting = None;
        self.retries_left = retries_left;
        e
    }
}

/// Once a poll's fetch brings lyrics, the next poll of the same track does
/// not fetch.
pub proof fn lemma_found_lyrics_stop_fetching(
    followed: Option<Seq<char>>,
    retries: nat,
    key: Option<Seq<char>>,
)
    ensures
        !fetches(key, poll(followed, retries, key, true).0, key),
{
}

/// Polls of an unchanged track whose fetches come back empty fetch exactly
/// while retries remain: over `n` polls, `min(n, retries)` fetches.
pub proof fn lemma_same_track_retries(retries: nat, key: Option<Seq<char>>, n: nat)
    ensures
        empty_poll_fetches(key, retries, key, n) == if n < retries {
            n
        } else {
            retries
        },
    decreases n,
{
    if n > 0 {
        let (r, fetched) = poll(key, retries, key, false);
        lemma_same_track_retries(r, key, (n - 1) as nat);
    }
}

/// A new track whose fetches keep coming back empty is fetched once, then
/// retried at most [`FETCH_RETRIES`] times: over `n` polls,
/// `min(n, 1 + FETCH_RETRIES)` fetches.
pub proof fn lemma_new_track_fetch_bound(
    followed: Option<Seq<char>>,
    retries: nat,
    key: Option<Seq<char>>,
    n: nat,
)
    requires
        key != followed,
    ensures
        empty_poll_fetches(followed, retries, key, n) == if n < 1 + FETCH_RETRIES {
            n as int
        } else {
            1 + FETCH_RETRIES
        },
{
    if n > 0 {
        let (r, fetched) = poll(followed, retries, key, false);
        assert(fetched && r == FETCH_RETRIES);
        lemma_same_track_retries(r, key, (n - 1) as nat);
    }
}

/// How one HTTP attempt ended.
#[derive(Debug, Clone, Copy, PartialEq, Eq, Structural)]
pub enum Attempt {
    /// A response arrived.
    Response,
    /// The server answered with this error status.
    Status(u16),
    /// The request failed in transport (DNS, connect, timeout, …).
    Transport,
}

/// What to do after an HTTP attempt.
#[derive(Debug, Clone, Copy, PartialEq, Eq, Structural)]
pub enum NextStep {
    /// Read the response body.
    ReadBody,
    /// Back off, then try again.
    Retry,
    /// Give up: no result.
    GiveUp,
}

/// The step after attempt number `attempt` (0-based) ended with `outcome`.
pub open spec fn next_step(attempt: nat, outcome: Attempt) -> NextStep {
    match outcome {
        Attempt::Response => NextStep::ReadBody,
        Attempt::Status(code) => if 500 <= code < 600 && attempt < HTTP_RETRIES {
            NextStep::Retry
        } else {
            NextStep::GiveUp
        },
        Attempt::Transport => if attempt < HTTP_RETRIES {
            NextStep::Retry
        } else {
            NextStep::GiveUp
        },
    }
}

/// A request is made at most `1 + HTTP_RETRIES` times, and a client error
/// (`4xx`) is never retried.
pub proof fn lemma_attempts_bounded(attempt: nat, outcome: Attempt)
    ensures
        attempt >= HTTP_RETRIES ==> next_step(attempt, outcome) != NextStep::Retry,
        outcome matches Attempt::Status(code) && 400 <= code < 500 ==> next_step(attempt, outcome)
            == NextStep::GiveUp,
{
}

/// After attempt number `attempt` (0-based) ended with `outcome`: transport
/// errors and `5xx` statuses are retried while attempts remain; any other
/// status is definitive.
pub fn after_attempt(attempt: u32, outcome: Attempt) -> (next: NextStep)
    ensures
        next == next_step(attempt as nat, outcome),
{
    match outcome {
        Attempt::Response => NextStep::ReadBody,
        Attempt::Status(code) => if crate::query::status_is_retryable(code) && attempt < HTTP_RETRIES {
            NextStep::Retry
        } else {
            NextStep::GiveUp
        },
        Attempt::Transport => if attempt < HTTP_RETRIES {
            NextStep::Retry
        } else {
            NextStep::GiveUp
        },
    }
}

/// The synced lyrics of an LRCLIB record when usable (present and not blank).
pub fn usable_synced(synced: &Option<String>) -> (r: Option<String>)
    ensures
        match r {
            Some(s) => opt_chars(*synced) == Some(s@) && trim(s@).len() > 0,
            None => match *synced {
                Some(s) => trim(s@).len() == 0,
                None => true,
            },
        },
{
    match synced {
        Some(s) => if trim_chars(&chars_of(s.as_str())).len() > 0 {
            Some(s.clone())
        } else {
            None
        },
        None => None,
    }
}

} // verus!
