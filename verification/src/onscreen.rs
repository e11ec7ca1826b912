//! The first lyrics overlay (`lyrics-on-screen`): its now-playing query, which
//! takes the player's fields as they are (trimmed, without cleaning), and its
//! placement and mode settings.
use crate::query::{kept_album, opt_chars, query_chars, resolved, TrackQuery};
use crate::text::{chars_of, string_of, trim, trim_chars};
use vstd::prelude::*;

verus! {

/// The first artist that is not blank, trimmed.
pub open spec fn first_trimmed(artists: Seq<Seq<char>>) -> Option<Seq<char>>
    decreases artists.len(),
{
    if artists.len() == 0 {
        None
    } else if trim(artists[0]).len() > 0 {
        Some(trim(artists[0]))
    } else {
        first_trimmed(artists.drop_first())
    }
}

/// What the plain `build_query` returns, over the inputs' characters: the
/// trimmed title (none when blank); the first non-blank artist, or else an
/// `Artist - Title` split of the title; the album unless blank; the length
/// unless zero.
pub open spec fn plain_query(
    title: Option<Seq<char>>,
    artists: Seq<Seq<char>>,
    album: Option<Seq<char>>,
    length_secs: Option<u64>,
) -> Option<(Seq<char>, Seq<char>, Option<Seq<char>>, Option<u64>)> {
    match title {
        None => None,
        Some(t) => if trim(t).len() == 0 {
            None
        } else {
            let (artist, title) = resolved(trim(t), first_trimmed(artists), false);
            let duration = match length_secs {
                Some(d) => if d > 0 {
                    Some(d)
                } else {
                    None
                },
                None => None,
            };
            Some((artist, title, kept_album(album), duration))
        },
    }
}

fn first_trimmed_artist(artists: &Vec<String>) -> (r: Option<Vec<char>>)
    ensures
        match r {
            Some(a) => first_trimmed(artists@.map_values(|x: String| x@)) == Some(a@),
            None => first_trimmed(artists@.map_values(|x: String| x@)) is None,
        },
{
    let ghost all = artists@.map_values(|x: String| x@);
    let mut i: usize = 0;
    assert(all.skip(0) =~= all);
    while i < artists.len()
        invariant
            i <= artists.len(),
            all == artists@.map_values(|x: String| x@),
            first_trimmed(all) == first_trimmed(all.skip(i as int)),
        decreases artists.len() - i,
    {
        let a = trim_chars(&chars_of(artists[i].as_str()));
        assert(all.skip(i as int)[0] == artists@[i as int]@);
        if a.len() > 0 {
            return Some(a);
        }
        assert(all.skip(i as int).drop_first() =~= all.skip(i + 1));
        i += 1;
    }
    assert(all.skip(i as int).len() == 0);
    None
}

/// Builds a lyrics query from raw player metadata, trusting its fields: when
/// the player gives no artist (common for browser tabs), an `Artist - Title`
/// title is split. Returns `None` if there's no usable title.
pub fn build_query(
    title: Option<String>,
    artists: Vec<String>,
    album: Option<String>,
    length_secs: Option<u64>,
) -> (r: Option<TrackQuery>)
    ensures
        match r {
            Some(q) => plain_query(
                opt_chars(title),
                artists@.map_values(|x: String| x@),
                opt_chars(album),
                length_secs,
            ) == Some(query_chars(q)),
            None => plain_query(
                opt_chars(title),
                artists@.map_values(|x: String| x@),
                opt_chars(album),
                length_secs,
            ) is None,
        },
{
    let t = match &title {
        Some(t) => trim_chars(&chars_of(t.as_str())),
        None => {
            return None;
        },
    };
    if t.len() == 0 {
        return None;
    }
    let meta_artist = first_trimmed_artist(&artists);
    let (artist, resolved_title) = crate::query::resolve_artist_title(t, meta_artist, false);
    let album_kept = match &album {
        Some(a) => {
            let k = trim_chars(&chars_of(a.as_str()));
            if k.len() > 0 {
                Some(string_of(&k))
            } else {
                None
            }
        },
        None => None,
    };
    let duration = match length_secs {
        Some(d) => if d > 0 {
            Some(d)
        } else {
            None
        },
        None => None,
    };
    Some(
        TrackQuery {
            artist: string_of(&artist),
            title: string_of(&resolved_title),
            album: album_kept,
            duration,
        },
    )
}

/// Where the overlay sits on screen.
#[derive(Debug, Clone, Copy, PartialEq, Eq, Structural)]
pub enum Position {
    Bottom,
    Top,
}

impl Position {
    /// The layer-shell margin `(top, right, bottom, left)`: 40 px from the
    /// chosen edge.
    pub fn margin(self) -> (r: (i32, i32, i32, i32))
        ensures
            r == match self {
                Position::Bottom => (0i32, 0i32, 40i32, 0i32),
                Position::Top => (40i32, 0i32, 0i32, 0i32),
            },
    {
        match self {
            Position::Bottom => (0, 0, 40, 0),
            Position::Top => (40, 0, 0, 0),
        }
    }

    /// Index in the tray's position choice.
    pub fn index(self) -> (r: usize)
        ensures
            r == match self {
                Position::Bottom => 0usize,
                Position::Top => 1usize,
            },
    {
        match self {
            Position::Bottom => 0,
            Position::Top => 1,
        }
    }
}

/// How captions follow playback: live events, or the local timeline.
#[derive(Debug, Clone, Copy, PartialEq, Eq, Structural)]
pub enum Mode {
    Live,
    Timeline,
}

impl Mode {
    /// Index in the tray's mode choice.
    pub fn index(self) -> (r: usize)
        ensures
            r == match self {
                Mode::Live => 0usize,
                Mode::Timeline => 1usize,
            },
    {
        match self {
            Mode::Live => 0,
            Mode::Timeline => 1,
        }
    }

    /// The mode at a tray index; anything but 1 is [`Mode::Live`].
    pub fn from_idx(i: usize) -> (r: Mode)
        ensures
            r == if i == 1 {
                Mode::Timeline
            } else {
                Mode::Live
            },
    {
        if i == 1 {
            Mode::Timeline
        } else {
            Mode::Live
        }
    }
}

/// Each mode survives a trip through its tray index.
pub proof fn lemma_mode_roundtrip(m: Mode)
    ensures
        (if (match m {
            Mode::Live => 0usize,
            Mode::Timeline => 1usize,
        }) == 1 {
            Mode::Timeline
        } else {
            Mode::Live
        }) == m,
{
}

/// The caption state of the first overlay. In live mode the browser pushes
/// each caption; in timeline mode captions come from the cue timeline, which
/// the caller looks up. Nothing is shown while the overlay is disabled.
pub struct Captions {
    caption: String,
    last_live: String,
    enabled: bool,
    mode: Mode,
}

impl Captions {
    #[verifier::type_invariant]
    spec fn inv(self) -> bool {
        !self.enabled ==> self.caption@.len() == 0
    }

    /// The caption on screen.
    pub closed spec fn shown(self) -> Seq<char> {
        self.caption@
    }

    /// The last caption the browser pushed in live mode.
    pub closed spec fn last_live(self) -> Seq<char> {
        self.last_live@
    }

    /// Whether the overlay is enabled.
    pub closed spec fn is_enabled(self) -> bool {
        self.enabled
    }

    /// The caption mode.
    pub closed spec fn current_mode(self) -> Mode {
        self.mode
    }

    /// Nothing is on screen yet.
    pub fn new(enabled: bool, mode: Mode) -> (c: Captions)
        ensures
            c.shown().len() == 0,
            c.last_live().len() == 0,
            c.is_enabled() == enabled,
            c.current_mode() == mode,
    {
        Captions { caption: String::new(), last_live: String::new(), enabled, mode }
    }

    /// The caption on screen; empty whenever the overlay is disabled.
    pub fn caption(&self) -> (r: &String)
        ensures
            r@ == self.shown(),
            !self.is_enabled() ==> r@.len() == 0,
    {
        proof {
            use_type_invariant(self);
        }
        &self.caption
    }

    /// Whether the overlay is enabled.
    pub fn enabled(&self) -> (r: bool)
        ensures
            r == self.is_enabled(),
    {
        self.enabled
    }

    /// The caption mode.
    pub fn mode(&self) -> (r: Mode)
        ensures
            r == self.current_mode(),
    {
        self.mode
    }

    /// Whether timeline captions are shown: enabled, in timeline mode.
    pub fn follows_timeline(&self) -> (r: bool)
        ensures
            r == (self.is_enabled() && self.current_mode() == Mode::Timeline),
    {
        self.enabled && self.mode == Mode::Timeline
    }

    /// The browser pushed caption `text`: it is remembered, and shown when
    /// enabled in live mode.
    pub fn caption_received(&mut self, text: String)
        ensures
            final(self).last_live() == text@,
            final(self).shown() == if old(self).is_enabled() && old(self).current_mode() == Mode::Live {
                text@
            } else {
                old(self).shown()
            },
            final(self).is_enabled() == old(self).is_enabled(),
            final(self).current_mode() == old(self).current_mode(),
    {
        proof {
            use_type_invariant(&*self);
        }
        if self.enabled && self.mode == Mode::Live {
            self.caption = text.clone();
        }
        self.last_live = text;
    }

    /// The live caption went stale: in live mode both the shown and the
    /// remembered caption are cleared; in timeline mode nothing changes.
    pub fn clear_caption(&mut self)
        ensures
            old(self).current_mode() == Mode::Live ==> final(self).shown().len() == 0
                && final(self).last_live().len() == 0,
            old(self).current_mode() == Mode::Timeline ==> final(self).shown() == old(self).shown()
                && final(self).last_live() == old(self).last_live(),
            final(self).is_enabled() == old(self).is_enabled(),
            final(self).current_mode() == old(self).current_mode(),
    {
        proof {
            use_type_invariant(&*self);
        }
        if self.mode == Mode::Live {
            self.caption = String::new();
            self.last_live = String::new();
        }
    }

    /// Turns the overlay on or off. Disabling clears the screen; enabling in
    /// live mode brings the last live caption back. Returns whether the caller
    /// must now show the timeline caption (enabling in timeline mode).
    pub fn set_enabled(&mut self, on: bool) -> (apply_timeline: bool)
        ensures
            final(self).is_enabled() == on,
            final(self).current_mode() == old(self).current_mode(),
            final(self).last_live() == old(self).last_live(),
            final(self).shown() == if !on {
                Seq::<char>::empty()
            } else if old(self).current_mode() == Mode::Live {
                old(self).last_live()
            } else {
                old(self).shown()
            },
            apply_timeline == (on && old(self).current_mode() == Mode::Timeline),
    {
        proof {
            use_type_invariant(&*self);
        }
        if !on {
            self.caption = String::new();
            self.enabled = false;
            false
        } else if self.mode == Mode::Live {
            self.enabled = true;
            self.caption = self.last_live.clone();
            false
        } else {
            self.enabled = true;
            true
        }
    }

    /// Switches the caption mode, clearing the screen. Returns whether the
    /// caller must drop its timeline (switching to live mode).
    pub fn set_mode(&mut self, m: Mode) -> (reset_timeline: bool)
        ensures
            final(self).current_mode() == m,
            final(self).shown().len() == 0,
            final(self).is_enabled() == old(self).is_enabled(),
            final(self).last_live() == old(self).last_live(),
            reset_timeline == (m == Mode::Live),
    {
        proof {
            use_type_invariant(&*self);
        }
        self.caption = String::new();
        self.mode = m;
        m == Mode::Live
    }

    /// Shows the timeline's caption at the current position, when timeline
    /// captions are being followed; otherwise nothing changes.
    pub fn show_timeline(&mut self, text: String)
        ensures
            final(self).shown() == if old(self).is_enabled() && old(self).current_mode() == Mode::Timeline {
                text@
            } else {
                old(self).shown()
            },
            final(self).is_enabled() == old(self).is_enabled(),
            final(self).current_mode() == old(self).current_mode(),
            final(self).last_live() == old(self).last_live(),
    {
        proof {
            use_type_invariant(&*self);
        }
        if self.enabled && self.mode == Mode::Timeline {
            self.caption = text;
        }
    }
}

/// The payload length a native-messaging frame header announces: the four
/// header bytes as a little-endian `u32`.
pub open spec fn announced_len(header: [u8; 4]) -> int {
    header[0] + 256 * header[1] + 65536 * header[2] + 16777216 * header[3]
}

/// The payload length of a native-messaging frame, from its 4-byte
/// little-endian header.
pub fn frame_len(header: [u8; 4]) -> (r: u32)
    ensures
        r == announced_len(header),
{
    (header[0] as u32) + (header[1] as u32) * 256 + (header[2] as u32) * 65536 + (header[3] as u32)
        * 16777216
}

} // verus!
