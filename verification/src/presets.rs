//! Persisted selections of the apps (font size, tuner preset, meter style,
//! metronome tempo source, tone timbre) and the overlay stacking geometry.
//! Every selection is stored as a small index: `from_idx(x.index()) == x`,
//! and an unknown index reads as the default.
use vstd::prelude::*;

verus! {

/// Overlay caption font size.
#[derive(Clone, Copy, PartialEq, Eq, Debug, Structural)]
pub enum FontSize {
    Small,
    Medium,
    Large,
}

/// The stable index of a choice.
pub open spec fn font_size_index(f: FontSize) -> int {
    match f {
        FontSize::Small => 0,
        FontSize::Medium => 1,
        FontSize::Large => 2,
    }
}

/// The choice at an index (the default for an unknown one).
pub open spec fn font_size_at(i: int) -> FontSize {
    if i == 0 {
        FontSize::Small
    } else if i == 2 {
        FontSize::Large
    } else {
        FontSize::Medium
    }
}

impl FontSize {
    /// The stable index stored in the settings.
    pub fn index(self) -> (r: usize)
        ensures
            r == font_size_index(self),
    {
        match self {
            FontSize::Small => 0,
            FontSize::Medium => 1,
            FontSize::Large => 2,
        }
    }

    /// The choice at a stored index; an unknown index gives the default.
    pub fn from_idx(i: usize) -> (r: FontSize)
        ensures
            r == font_size_at(i as int),
    {
        match i {
            0 => FontSize::Small,
            2 => FontSize::Large,
            _ => FontSize::Medium,
        }
    }
}

/// Tuning preset. Indices are stable (persisted in the config).
#[derive(Debug, Clone, Copy, PartialEq, Eq, Structural)]
pub enum Instrument {
    Chromatic,
    Guitar,
    Bass,
    Ukulele,
    Violin,
}

/// The stable index of a choice.
pub open spec fn instrument_index(x: Instrument) -> int {
    match x {
        Instrument::Chromatic => 0,
        Instrument::Guitar => 1,
        Instrument::Bass => 2,
        Instrument::Ukulele => 3,
        Instrument::Violin => 4,
    }
}

/// The choice at an index (the default for an unknown one).
pub open spec fn instrument_at(i: int) -> Instrument {
    if i == 1 {
        Instrument::Guitar
    } else if i == 2 {
        Instrument::Bass
    } else if i == 3 {
        Instrument::Ukulele
    } else if i == 4 {
        Instrument::Violin
    } else {
        Instrument::Chromatic
    }
}

/// Open-string MIDI numbers of a preset; none for `Chromatic`.
pub open spec fn instrument_targets(x: Instrument) -> Seq<i64> {
    match x {
        Instrument::Guitar => seq![40i64, 45, 50, 55, 59, 64],
        Instrument::Bass => seq![28i64, 33, 38, 43],
        Instrument::Ukulele => seq![67i64, 60, 64, 69],
        Instrument::Violin => seq![55i64, 62, 69, 76],
        Instrument::Chromatic => seq![],
    }
}

impl Instrument {
    /// The stable index stored in the settings.
    pub fn index(self) -> (r: usize)
        ensures
            r == instrument_index(self),
    {
        match self {
            Instrument::Chromatic => 0,
            Instrument::Guitar => 1,
            Instrument::Bass => 2,
            Instrument::Ukulele => 3,
            Instrument::Violin => 4,
        }
    }

    /// The choice at a stored index; an unknown index gives the default.
    pub fn from_idx(i: usize) -> (r: Instrument)
        ensures
            r == instrument_at(i as int),
    {
        match i {
            1 => Instrument::Guitar,
            2 => Instrument::Bass,
            3 => Instrument::Ukulele,
            4 => Instrument::Violin,
            _ => Instrument::Chromatic,
        }
    }

    /// The name shown in the tray menu.
    pub fn label(self) -> (r: &'static str)
        ensures
            r@ == match self {
                Instrument::Chromatic => "Crom\u{e1}tico"@,
                Instrument::Guitar => "Viol\u{e3}o"@,
                Instrument::Bass => "Baixo"@,
                Instrument::Ukulele => "Ukulele"@,
                Instrument::Violin => "Violino"@,
            },
    {
        match self {
            Instrument::Chromatic => "Crom\u{e1}tico",
            Instrument::Guitar => "Viol\u{e3}o",
            Instrument::Bass => "Baixo",
            Instrument::Ukulele => "Ukulele",
            Instrument::Violin => "Violino",
        }
    }

    /// Open-string MIDI numbers for this preset; empty for `Chromatic`.
    pub fn targets(self) -> (r: &'static [i64])
        ensures
            r@ == instrument_targets(self),
    {
        match self {
            Instrument::Guitar => &[40, 45, 50, 55, 59, 64],
            Instrument::Bass => &[28, 33, 38, 43],
            Instrument::Ukulele => &[67, 60, 64, 69],
            Instrument::Violin => &[55, 62, 69, 76],
            Instrument::Chromatic => &[],
        }
    }

    /// All presets in index order, for building the tray menu.
    pub const ALL: [Instrument; 5] = [
        Instrument::Chromatic,
        Instrument::Guitar,
        Instrument::Bass,
        Instrument::Ukulele,
        Instrument::Violin,
    ];
}

/// Open strings of each preset, in standard tuning: the guitar from E2 (MIDI
/// 40) in fourths but a major third between G and B; the bass from E1 (28) in
/// fourths; the ukulele's re-entrant G4 C4 E4 A4 (C4 = 60, the high G a fifth
/// above C); the violin from G3 (55) in fifths; none for chromatic tuning.
pub proof fn lemma_standard_tunings()
    ensures
        instrument_targets(Instrument::Guitar).len() == 6,
        instrument_targets(Instrument::Guitar)[0] == 40,
        forall|i: int|
            0 <= i < 5 ==> instrument_targets(Instrument::Guitar)[i + 1] - #[trigger] instrument_targets(
                Instrument::Guitar,
            )[i] == if i == 3 {
                4int
            } else {
                5int
            },
        instrument_targets(Instrument::Bass).len() == 4,
        instrument_targets(Instrument::Bass)[0] == 28,
        forall|i: int|
            0 <= i < 3 ==> instrument_targets(Instrument::Bass)[i + 1] - #[trigger] instrument_targets(
                Instrument::Bass,
            )[i] == 5,
        instrument_targets(Instrument::Ukulele).len() == 4,
        instrument_targets(Instrument::Ukulele)[1] == 60,
        instrument_targets(Instrument::Ukulele)[0] == instrument_targets(Instrument::Ukulele)[1] + 7,
        instrument_targets(Instrument::Ukulele)[2] == instrument_targets(Instrument::Ukulele)[1] + 4,
        instrument_targets(Instrument::Ukulele)[3] == instrument_targets(Instrument::Ukulele)[2] + 5,
        instrument_targets(Instrument::Violin).len() == 4,
        instrument_targets(Instrument::Violin)[0] == 55,
        forall|i: int|
            0 <= i < 3 ==> instrument_targets(Instrument::Violin)[i + 1] - #[trigger] instrument_targets(
                Instrument::Violin,
            )[i] == 7,
        instrument_targets(Instrument::Chromatic).len() == 0,
{
}

/// The visual style of the tuning meter.
#[derive(Debug, Clone, Copy, PartialEq, Eq, Default, Structural)]
pub enum MeterStyle {
    #[default]
    Needle,
    CenterBar,
    Strobe,
}

/// The stable index of a choice.
pub open spec fn meter_style_index(x: MeterStyle) -> int {
    match x {
        MeterStyle::Needle => 0,
        MeterStyle::CenterBar => 1,
        MeterStyle::Strobe => 2,
    }
}

/// The choice at an index (the default for an unknown one).
pub open spec fn meter_style_at(i: int) -> MeterStyle {
    if i == 1 {
        MeterStyle::CenterBar
    } else if i == 2 {
        MeterStyle::Strobe
    } else {
        MeterStyle::Needle
    }
}

impl MeterStyle {
    /// The stable index stored in the settings.
    pub fn index(self) -> (r: usize)
        ensures
            r == meter_style_index(self),
    {
        match self {
            MeterStyle::Needle => 0,
            MeterStyle::CenterBar => 1,
            MeterStyle::Strobe => 2,
        }
    }

    /// The choice at a stored index; an unknown index gives the default.
    pub fn from_idx(i: usize) -> (r: MeterStyle)
        ensures
            r == meter_style_at(i as int),
    {
        match i {
            1 => MeterStyle::CenterBar,
            2 => MeterStyle::Strobe,
            _ => MeterStyle::Needle,
        }
    }

    /// The name shown in the tray menu.
    pub fn label(self) -> (r: &'static str)
        ensures
            r@ == match self {
                MeterStyle::Needle => "Agulha"@,
                MeterStyle::CenterBar => "Barra"@,
                MeterStyle::Strobe => "Strobe"@,
            },
    {
        match self {
            MeterStyle::Needle => "Agulha",
            MeterStyle::CenterBar => "Barra",
            MeterStyle::Strobe => "Strobe",
        }
    }
}

/// Where the metronome's tempo comes from.
#[derive(Debug, Clone, Copy, PartialEq, Eq, Default, Structural)]
pub enum Source {
    /// Set by hand (tray ± and tap tempo).
    #[default]
    Manual,
    /// Locked to the playing track's UltraStar `#BPM`/`#GAP` grid.
    Song,
    /// Estimated live from the system-audio monitor (best-effort).
    Detect,
}

/// The stable index of a choice.
pub open spec fn source_index(x: Source) -> int {
    match x {
        Source::Manual => 0,
        Source::Song => 1,
        Source::Detect => 2,
    }
}

/// The choice at an index (the default for an unknown one).
pub open spec fn source_at(i: int) -> Source {
    if i == 1 {
        Source::Song
    } else if i == 2 {
        Source::Detect
    } else {
        Source::Manual
    }
}

impl Source {
    /// The stable index stored in the settings.
    pub fn index(self) -> (r: usize)
        ensures
            r == source_index(self),
    {
        match self {
            Source::Manual => 0,
            Source::Song => 1,
            Source::Detect => 2,
        }
    }

    /// The choice at a stored index; an unknown index gives the default.
    pub fn from_idx(i: usize) -> (r: Source)
        ensures
            r == source_at(i as int),
    {
        match i {
            1 => Source::Song,
            2 => Source::Detect,
            _ => Source::Manual,
        }
    }

    /// The name shown in the tray menu.
    pub fn label(self) -> (r: &'static str)
        ensures
            r@ == match self {
                Source::Manual => "Manual"@,
                Source::Song => "Seguir m\u{fa}sica"@,
                Source::Detect => "Detectar \u{e1}udio"@,
            },
    {
        match self {
            Source::Manual => "Manual",
            Source::Song => "Seguir m\u{fa}sica",
            Source::Detect => "Detectar \u{e1}udio",
        }
    }
}

/// Reference-tone timbre. Stable indices (persisted).
#[derive(Debug, Clone, Copy, PartialEq, Eq, Structural)]
pub enum Timbre {
    /// FM electric-piano voice (default).
    ElectricPiano,
    /// Pure sine.
    Sine,
}

/// The stable index of a choice.
pub open spec fn timbre_index(x: Timbre) -> int {
    match x {
        Timbre::ElectricPiano => 0,
        Timbre::Sine => 1,
    }
}

/// The choice at an index (the default for an unknown one).
pub open spec fn timbre_at(i: int) -> Timbre {
    if i == 1 {
        Timbre::Sine
    } else {
        Timbre::ElectricPiano
    }
}

impl Timbre {
    /// The stable index stored in the settings.
    pub fn index(self) -> (r: usize)
        ensures
            r == timbre_index(self),
    {
        match self {
            Timbre::ElectricPiano => 0,
            Timbre::Sine => 1,
        }
    }

    /// The choice at a stored index; an unknown index gives the default.
    pub fn from_idx(i: usize) -> (r: Timbre)
        ensures
            r == timbre_at(i as int),
    {
        match i {
            1 => Timbre::Sine,
            _ => Timbre::ElectricPiano,
        }
    }
}

/// Stored indices round-trip, and unknown indices read as the default.
pub proof fn lemma_presets_roundtrip(f: FontSize, x: Instrument, m: MeterStyle, s: Source, t: Timbre, i: int)
    ensures
        font_size_at(font_size_index(f)) == f,
        instrument_at(instrument_index(x)) == x,
        meter_style_at(meter_style_index(m)) == m,
        source_at(source_index(s)) == s,
        timbre_at(timbre_index(t)) == t,
        !(0 <= i < 3) ==> font_size_at(i) == FontSize::Medium,
        !(0 <= i < 5) ==> instrument_at(i) == Instrument::Chromatic,
        !(0 <= i < 3) ==> meter_style_at(i) == MeterStyle::Needle,
        !(0 <= i < 3) ==> source_at(i) == Source::Manual,
        !(0 <= i < 2) ==> timbre_at(i) == Timbre::ElectricPiano,
{
}

/// Margin tuple `(top, right, bottom, left)` of a layer-shell surface.
pub type Margin = (i32, i32, i32, i32);

/// Offset of the bottom-most slot from the screen edge.
pub const BASE_MARGIN: i32 = 40;

/// Layer-shell surface height.
pub const SURFACE_HEIGHT: i32 = 80;

/// Visual gap between stacked surfaces.
pub const GAP: i32 = 8;

/// Vertical pitch between adjacent slots.
pub const PITCH: i32 = SURFACE_HEIGHT + GAP;

/// Margin for a given stack slot at the bottom edge (slot 0 = bottom-most):
/// the bottom margin grows by [`PITCH`] per slot.
pub fn margin_for_slot(slot: usize) -> (r: Margin)
    requires
        i32::MIN <= (slot as i32) * PITCH <= i32::MAX,
        i32::MIN <= BASE_MARGIN + (slot as i32) * PITCH <= i32::MAX,
    ensures
        r == (0i32, 0i32, (BASE_MARGIN + (slot as i32) * PITCH) as i32, 0i32),
{
    (0, 0, BASE_MARGIN + (slot as i32) * PITCH, 0)
}

} // verus!
