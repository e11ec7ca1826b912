//! Music theory of the vocal trainer: scales, exercise items (notes and chords
//! to sing), and note names and labels.
use crate::text::{push_str, push_signed_decimal, signed_decimal, string_of};
use vstd::prelude::*;

verus! {

/// Letter name of a pitch class (0 = C … 11 = B).
pub open spec fn letter_name(pc: int) -> Seq<char> {
    if pc == 0 {
        "C"@
    } else if pc == 1 {
        "C#"@
    } else if pc == 2 {
        "D"@
    } else if pc == 3 {
        "D#"@
    } else if pc == 4 {
        "E"@
    } else if pc == 5 {
        "F"@
    } else if pc == 6 {
        "F#"@
    } else if pc == 7 {
        "G"@
    } else if pc == 8 {
        "G#"@
    } else if pc == 9 {
        "A"@
    } else if pc == 10 {
        "A#"@
    } else {
        "B"@
    }
}

/// Solfège name of a pitch class (0 = Dó … 11 = Si).
pub open spec fn solfege_name(pc: int) -> Seq<char> {
    if pc == 0 {
        "D\u{f3}"@
    } else if pc == 1 {
        "D\u{f3}#"@
    } else if pc == 2 {
        "R\u{e9}"@
    } else if pc == 3 {
        "R\u{e9}#"@
    } else if pc == 4 {
        "Mi"@
    } else if pc == 5 {
        "F\u{e1}"@
    } else if pc == 6 {
        "F\u{e1}#"@
    } else if pc == 7 {
        "Sol"@
    } else if pc == 8 {
        "Sol#"@
    } else if pc == 9 {
        "L\u{e1}"@
    } else if pc == 10 {
        "L\u{e1}#"@
    } else {
        "Si"@
    }
}

/// Octave number of a MIDI note (MIDI note 0 is C-1).
pub open spec fn octave_of(midi: int) -> int {
    midi / 12 - 1
}

fn letter(pc: i64) -> (r: &'static str)
    requires
        0 <= pc < 12,
    ensures
        r@ == letter_name(pc as int),
{
    match pc {
        0 => "C",
        1 => "C#",
        2 => "D",
        3 => "D#",
        4 => "E",
        5 => "F",
        6 => "F#",
        7 => "G",
        8 => "G#",
        9 => "A",
        10 => "A#",
        _ => "B",
    }
}

fn solfege(pc: i64) -> (r: &'static str)
    requires
        0 <= pc < 12,
    ensures
        r@ == solfege_name(pc as int),
{
    match pc {
        0 => "D\u{f3}",
        1 => "D\u{f3}#",
        2 => "R\u{e9}",
        3 => "R\u{e9}#",
        4 => "Mi",
        5 => "F\u{e1}",
        6 => "F\u{e1}#",
        7 => "Sol",
        8 => "Sol#",
        9 => "L\u{e1}",
        10 => "L\u{e1}#",
        _ => "Si",
    }
}

/// Name + octave of a MIDI note number (60 = C4), e.g. `67 -> ("G", 4)`.
pub fn midi_name(midi: i64) -> (r: (&'static str, i32))
    ensures
        r.0@ == letter_name((midi as int) % 12),
        r.1 == (octave_of(midi as int)) as i32,
{
    let pc = midi.checked_rem_euclid(12).unwrap();
    let q = midi.checked_div_euclid(12).unwrap();
    (letter(pc), (q - 1) as i32)
}

/// Twelve semitones up is the same note name one octave higher.
pub proof fn lemma_octave_up(midi: int)
    ensures
        letter_name((midi + 12) % 12) == letter_name(midi % 12),
        octave_of(midi + 12) == octave_of(midi) + 1,
{
    assert((midi + 12) % 12 == midi % 12) by (nonlinear_arith);
    assert((midi + 12) / 12 == midi / 12 + 1) by (nonlinear_arith);
}

/// The major scale climbs whole, whole, half, whole, whole, whole, half step
/// from the root back to the octave.
pub proof fn lemma_major_steps()
    ensures
        scale_degrees(ScaleKind::Major).len() == 7,
        scale_degrees(ScaleKind::Major)[0] == 0,
        forall|i: int|
            0 <= i < 6 ==> scale_degrees(ScaleKind::Major)[i + 1] - #[trigger] scale_degrees(ScaleKind::Major)[i]
                == if i == 2 {
                1int
            } else {
                2int
            },
        12 - scale_degrees(ScaleKind::Major)[6] == 1,
{
}

/// Degree `i` of the mode that starts on degree `r` of the major scale, as
/// semitones above that mode's root.
pub open spec fn major_mode_degree(r: int, i: int) -> int {
    let major = scale_degrees(ScaleKind::Major);
    (major[(i + r) % 7] - major[r]) % 12
}

/// The church modes are the major scale started from another degree: Dorian
/// from the 2nd, Phrygian the 3rd, Lydian the 4th, Mixolydian the 5th, the
/// natural minor (Aeolian) the 6th, Locrian the 7th. So the natural minor's
/// sixth is a minor sixth (8 semitones).
pub proof fn lemma_modes_rotate_major(i: int)
    requires
        0 <= i < 7,
    ensures
        scale_degrees(ScaleKind::Dorian)[i] == major_mode_degree(1, i),
        scale_degrees(ScaleKind::Phrygian)[i] == major_mode_degree(2, i),
        scale_degrees(ScaleKind::Lydian)[i] == major_mode_degree(3, i),
        scale_degrees(ScaleKind::Mixolydian)[i] == major_mode_degree(4, i),
        scale_degrees(ScaleKind::NaturalMinor)[i] == major_mode_degree(5, i),
        scale_degrees(ScaleKind::Locrian)[i] == major_mode_degree(6, i),
        scale_degrees(ScaleKind::NaturalMinor)[5] == 8,
{
    if i == 0 {
    } else if i == 1 {
    } else if i == 2 {
    } else if i == 3 {
    } else if i == 4 {
    } else if i == 5 {
    } else {
    }
}

/// The harmonic minor is the natural minor with a raised seventh; the melodic
/// minor raises both the sixth and the seventh. The chromatic scale is every
/// semitone of the octave.
pub proof fn lemma_minor_variants()
    ensures
        forall|i: int|
            0 <= i < 6 ==> scale_degrees(ScaleKind::HarmonicMinor)[i] == scale_degrees(
                ScaleKind::NaturalMinor,
            )[i],
        scale_degrees(ScaleKind::HarmonicMinor)[6] == scale_degrees(ScaleKind::NaturalMinor)[6] + 1,
        forall|i: int|
            0 <= i < 5 ==> scale_degrees(ScaleKind::MelodicMinor)[i] == scale_degrees(
                ScaleKind::NaturalMinor,
            )[i],
        scale_degrees(ScaleKind::MelodicMinor)[5] == scale_degrees(ScaleKind::NaturalMinor)[5] + 1,
        scale_degrees(ScaleKind::MelodicMinor)[6] == scale_degrees(ScaleKind::NaturalMinor)[6] + 1,
        scale_degrees(ScaleKind::HarmonicMinor).len() == 7,
        scale_degrees(ScaleKind::MelodicMinor).len() == 7,
        scale_degrees(ScaleKind::Chromatic).len() == 12,
        forall|i: int| 0 <= i < 12 ==> scale_degrees(ScaleKind::Chromatic)[i] == i,
{
}

/// A musical scale kind. Indices are stable and append-only (persisted in config).
#[derive(Debug, Clone, Copy, PartialEq, Eq, Structural)]
pub enum ScaleKind {
    Major,
    NaturalMinor,
    Chromatic,
    Dorian,
    Phrygian,
    Lydian,
    Mixolydian,
    Locrian,
    HarmonicMinor,
    MelodicMinor,
}

/// Persisted index of a scale kind.
pub open spec fn scale_kind_index(k: ScaleKind) -> int {
    match k {
        ScaleKind::Major => 0,
        ScaleKind::NaturalMinor => 1,
        ScaleKind::Chromatic => 2,
        ScaleKind::Dorian => 3,
        ScaleKind::Phrygian => 4,
        ScaleKind::Lydian => 5,
        ScaleKind::Mixolydian => 6,
        ScaleKind::Locrian => 7,
        ScaleKind::HarmonicMinor => 8,
        ScaleKind::MelodicMinor => 9,
    }
}

/// The scale kind stored under index `i` (unknown indices read as `Major`).
pub open spec fn scale_kind_at(i: int) -> ScaleKind {
    if i == 1 {
        ScaleKind::NaturalMinor
    } else if i == 2 {
        ScaleKind::Chromatic
    } else if i == 3 {
        ScaleKind::Dorian
    } else if i == 4 {
        ScaleKind::Phrygian
    } else if i == 5 {
        ScaleKind::Lydian
    } else if i == 6 {
        ScaleKind::Mixolydian
    } else if i == 7 {
        ScaleKind::Locrian
    } else if i == 8 {
        ScaleKind::HarmonicMinor
    } else if i == 9 {
        ScaleKind::MelodicMinor
    } else {
        ScaleKind::Major
    }
}

/// Semitone offsets of a scale's degrees within one octave.
pub open spec fn scale_degrees(k: ScaleKind) -> Seq<i64> {
    match k {
        ScaleKind::Major => seq![0i64, 2, 4, 5, 7, 9, 11],
        ScaleKind::NaturalMinor => seq![0i64, 2, 3, 5, 7, 8, 10],
        ScaleKind::Chromatic => seq![0i64, 1, 2, 3, 4, 5, 6, 7, 8, 9, 10, 11],
        ScaleKind::Dorian => seq![0i64, 2, 3, 5, 7, 9, 10],
        ScaleKind::Phrygian => seq![0i64, 1, 3, 5, 7, 8, 10],
        ScaleKind::Lydian => seq![0i64, 2, 4, 6, 7, 9, 11],
        ScaleKind::Mixolydian => seq![0i64, 2, 4, 5, 7, 9, 10],
        ScaleKind::Locrian => seq![0i64, 1, 3, 5, 6, 8, 10],
        ScaleKind::HarmonicMinor => seq![0i64, 2, 3, 5, 7, 8, 11],
        ScaleKind::MelodicMinor => seq![0i64, 2, 3, 5, 7, 9, 11],
    }
}

impl ScaleKind {
    /// The stable index stored in the settings.
    pub fn index(self) -> (r: usize)
        ensures
            r == scale_kind_index(self),
    {
        match self {
            ScaleKind::Major => 0,
            ScaleKind::NaturalMinor => 1,
            ScaleKind::Chromatic => 2,
            ScaleKind::Dorian => 3,
            ScaleKind::Phrygian => 4,
            ScaleKind::Lydian => 5,
            ScaleKind::Mixolydian => 6,
            ScaleKind::Locrian => 7,
            ScaleKind::HarmonicMinor => 8,
            ScaleKind::MelodicMinor => 9,
        }
    }

    /// The choice at a stored index; an unknown index gives the default.
    pub fn from_idx(i: usize) -> (r: ScaleKind)
        ensures
            r == scale_kind_at(i as int),
    {
        match i {
            1 => ScaleKind::NaturalMinor,
            2 => ScaleKind::Chromatic,
            3 => ScaleKind::Dorian,
            4 => ScaleKind::Phrygian,
            5 => ScaleKind::Lydian,
            6 => ScaleKind::Mixolydian,
            7 => ScaleKind::Locrian,
            8 => ScaleKind::HarmonicMinor,
            9 => ScaleKind::MelodicMinor,
            _ => ScaleKind::Major,
        }
    }

    /// The name shown in the tray menu.
    pub fn label(self) -> (r: &'static str)
        ensures
            r@ == match self {
                ScaleKind::Major => "Maior"@,
                ScaleKind::NaturalMinor => "Menor"@,
                ScaleKind::Chromatic => "Crom\u{e1}tica"@,
                ScaleKind::Dorian => "D\u{f3}rico"@,
                ScaleKind::Phrygian => "Fr\u{ed}gio"@,
                ScaleKind::Lydian => "L\u{ed}dio"@,
                ScaleKind::Mixolydian => "Mixol\u{ed}dio"@,
                ScaleKind::Locrian => "L\u{f3}crio"@,
                ScaleKind::HarmonicMinor => "Menor harm\u{f4}nica"@,
                ScaleKind::MelodicMinor => "Menor mel\u{f3}dica"@,
            },
    {
        match self {
            ScaleKind::Major => "Maior",
            ScaleKind::NaturalMinor => "Menor",
            ScaleKind::Chromatic => "Crom\u{e1}tica",
            ScaleKind::Dorian => "D\u{f3}rico",
            ScaleKind::Phrygian => "Fr\u{ed}gio",
            ScaleKind::Lydian => "L\u{ed}dio",
            ScaleKind::Mixolydian => "Mixol\u{ed}dio",
            ScaleKind::Locrian => "L\u{f3}crio",
            ScaleKind::HarmonicMinor => "Menor harm\u{f4}nica",
            ScaleKind::MelodicMinor => "Menor mel\u{f3}dica",
        }
    }

    /// Semitone offsets of the scale degrees within one octave. The modes and
    /// minor variants are 7-degree; the melodic minor is its ascending form.
    pub fn degrees(self) -> (r: &'static [i64])
        ensures
            r@ == scale_degrees(self),
    {
        match self {
            ScaleKind::Major => &[0, 2, 4, 5, 7, 9, 11],
            ScaleKind::NaturalMinor => &[0, 2, 3, 5, 7, 8, 10],
            ScaleKind::Chromatic => &[0, 1, 2, 3, 4, 5, 6, 7, 8, 9, 10, 11],
            ScaleKind::Dorian => &[0, 2, 3, 5, 7, 9, 10],
            ScaleKind::Phrygian => &[0, 1, 3, 5, 7, 8, 10],
            ScaleKind::Lydian => &[0, 2, 4, 6, 7, 9, 11],
            ScaleKind::Mixolydian => &[0, 2, 4, 5, 7, 9, 10],
            ScaleKind::Locrian => &[0, 1, 3, 5, 6, 8, 10],
            ScaleKind::HarmonicMinor => &[0, 2, 3, 5, 7, 8, 11],
            ScaleKind::MelodicMinor => &[0, 2, 3, 5, 7, 9, 11],
        }
    }

    /// Every choice, in index order.
    pub const ALL: [ScaleKind; 10] = [
        ScaleKind::Major,
        ScaleKind::NaturalMinor,
        ScaleKind::Chromatic,
        ScaleKind::Dorian,
        ScaleKind::Phrygian,
        ScaleKind::Lydian,
        ScaleKind::Mixolydian,
        ScaleKind::Locrian,
        ScaleKind::HarmonicMinor,
        ScaleKind::MelodicMinor,
    ];
}

/// Exercise mode: how many/which notes make up each item. Indices stable (persisted).
#[derive(Debug, Clone, Copy, PartialEq, Eq, Structural)]
pub enum Mode {
    Notes,
    PowerChord,
    Triad,
    Tetrad,
}

/// The stable index of a choice.
pub open spec fn mode_index(m: Mode) -> int {
    match m {
        Mode::Notes => 0,
        Mode::PowerChord => 1,
        Mode::Triad => 2,
        Mode::Tetrad => 3,
    }
}

/// The choice at an index (the default for an unknown one).
pub open spec fn mode_at(i: int) -> Mode {
    if i == 1 {
        Mode::PowerChord
    } else if i == 2 {
        Mode::Triad
    } else if i == 3 {
        Mode::Tetrad
    } else {
        Mode::Notes
    }
}

impl Mode {
    /// The stable index stored in the settings.
    pub fn index(self) -> (r: usize)
        ensures
            r == mode_index(self),
    {
        match self {
            Mode::Notes => 0,
            Mode::PowerChord => 1,
            Mode::Triad => 2,
            Mode::Tetrad => 3,
        }
    }

    /// The choice at a stored index; an unknown index gives the default.
    pub fn from_idx(i: usize) -> (r: Mode)
        ensures
            r == mode_at(i as int),
    {
        match i {
            1 => Mode::PowerChord,
            2 => Mode::Triad,
            3 => Mode::Tetrad,
            _ => Mode::Notes,
        }
    }

    /// The name shown in the tray menu.
    pub fn label(self) -> (r: &'static str)
        ensures
            r@ == match self {
                Mode::Notes => "Notas"@,
                Mode::PowerChord => "Power chord"@,
                Mode::Triad => "Tr\u{ed}ade"@,
                Mode::Tetrad => "T\u{e9}trade"@,
            },
    {
        match self {
            Mode::Notes => "Notas",
            Mode::PowerChord => "Power chord",
            Mode::Triad => "Tr\u{ed}ade",
            Mode::Tetrad => "T\u{e9}trade",
        }
    }

    /// Every choice, in index order.
    pub const ALL: [Mode; 4] = [Mode::Notes, Mode::PowerChord, Mode::Triad, Mode::Tetrad];
}

/// How a chord's reference tone is played: all notes at once, or one after another.
/// Indices stable (persisted). Single-note items ignore this.
#[derive(Debug, Clone, Copy, PartialEq, Eq, Structural)]
pub enum PlayStyle {
    Together,
    Arpeggio,
}

/// The stable index of a choice.
pub open spec fn play_style_index(p: PlayStyle) -> int {
    match p {
        PlayStyle::Together => 0,
        PlayStyle::Arpeggio => 1,
    }
}

/// The choice at an index (the default for an unknown one).
pub open spec fn play_style_at(i: int) -> PlayStyle {
    if i == 1 {
        PlayStyle::Arpeggio
    } else {
        PlayStyle::Together
    }
}

impl PlayStyle {
    /// The stable index stored in the settings.
    pub fn index(self) -> (r: usize)
        ensures
            r == play_style_index(self),
    {
        match self {
            PlayStyle::Together => 0,
            PlayStyle::Arpeggio => 1,
        }
    }

    /// The choice at a stored index; an unknown index gives the default.
    pub fn from_idx(i: usize) -> (r: PlayStyle)
        ensures
            r == play_style_at(i as int),
    {
        match i {
            1 => PlayStyle::Arpeggio,
            _ => PlayStyle::Together,
        }
    }

    /// The name shown in the tray menu.
    pub fn label(self) -> (r: &'static str)
        ensures
            r@ == match self {
                PlayStyle::Together => "Junto"@,
                PlayStyle::Arpeggio => "Arpejo"@,
            },
    {
        match self {
            PlayStyle::Together => "Junto",
            PlayStyle::Arpeggio => "Arpejo",
        }
    }

    /// Every choice, in index order.
    pub const ALL: [PlayStyle; 2] = [PlayStyle::Together, PlayStyle::Arpeggio];
}

/// A scale: a root pitch class (0–11) and a kind.
#[derive(Debug, Clone, Copy)]
pub struct Scale {
    pub root: i64,
    pub kind: ScaleKind,
}

/// MIDI number of a scale's root in the playback octave (octave 4: C4 = 60).
pub open spec fn octave_root(s: Scale) -> int {
    60 + (s.root as int) % 12
}

/// MIDI note of scale step `i` counted from the root in the playback octave,
/// continuing upward through the following octaves.
pub open spec fn scale_step(s: Scale, i: int) -> int {
    let degs = scale_degrees(s.kind);
    octave_root(s) + degs[i % (degs.len() as int)] + 12 * (i / (degs.len() as int))
}

/// The notes of the exercise item for `degree` (taken modulo the scale size):
/// one note, root + perfect fifth, or the stacked triad / seventh chord.
pub open spec fn item_notes(s: Scale, mode: Mode, degree: int) -> Seq<int> {
    let d = degree % (scale_degrees(s.kind).len() as int);
    match mode {
        Mode::Notes => seq![scale_step(s, d)],
        Mode::PowerChord => seq![scale_step(s, d), scale_step(s, d) + 7],
        Mode::Triad => seq![scale_step(s, d), scale_step(s, d + 2), scale_step(s, d + 4)],
        Mode::Tetrad => seq![scale_step(s, d), scale_step(s, d + 2), scale_step(s, d + 4), scale_step(s, d + 6)],
    }
}

impl Scale {
    /// MIDI number of the scale root in the playback octave (octave 4: C4 = 60).
    pub fn octave_root_midi(&self) -> (r: i64)
        ensures
            r == octave_root(*self),
    {
        60 + self.root.checked_rem_euclid(12).unwrap()
    }

    /// Number of degrees in this scale.
    pub fn degree_count(&self) -> (r: usize)
        ensures
            r == scale_degrees(self.kind).len(),
    {
        self.kind.degrees().len()
    }
}

/// Every scale's degrees are strictly ascending offsets within one octave, and
/// there are seven of them (twelve for the chromatic scale).
pub proof fn lemma_scale_degrees(k: ScaleKind)
    ensures
        scale_degrees(k).len() == if k == ScaleKind::Chromatic {
            12int
        } else {
            7int
        },
        scale_degrees(k)[0] == 0,
        forall|i: int| 0 <= i < scale_degrees(k).len() ==> 0 <= #[trigger] scale_degrees(k)[i] < 12,
        forall|i: int, j: int|
            0 <= i < j < scale_degrees(k).len() ==> #[trigger] scale_degrees(k)[i] < #[trigger] scale_degrees(k)[j],
{
}

fn step(s: &Scale, degs: &[i64], i: usize) -> (r: i64)
    requires
        degs@ == scale_degrees(s.kind),
        i < 32,
    ensures
        r == scale_step(*s, i as int),
{
    proof {
        lemma_scale_degrees(s.kind);
    }
    let n = degs.len();
    s.octave_root_midi() + degs[i % n] + 12 * ((i / n) as i64)
}

/// The exercise item (the MIDI notes to sing) for a chosen scale-degree index.
///
/// All notes are relative to the scale root in the playback octave. Chord shapes
/// other than the power chord are built from scale degrees `d`, `d+2`, … (every
/// other step), wrapping upward by an octave so the notes ascend. The power
/// chord's fifth is an absolute 7-semitone interval.
pub fn item_at(scale: &Scale, mode: Mode, degree: usize) -> (r: Vec<i64>)
    ensures
        r@.len() == item_notes(*scale, mode, degree as int).len(),
        forall|i: int| 0 <= i < r@.len() ==> r@[i] as int == #[trigger] item_notes(*scale, mode, degree as int)[i],
{
    let degs = scale.kind.degrees();
    proof {
        lemma_scale_degrees(scale.kind);
    }
    let n = degs.len();
    let d = degree % n;
    let r = match mode {
        Mode::Notes => vec![step(scale, degs, d)],
        Mode::PowerChord => vec![step(scale, degs, d), step(scale, degs, d) + 7],
        Mode::Triad => vec![step(scale, degs, d), step(scale, degs, d + 2), step(scale, degs, d + 4)],
        Mode::Tetrad => vec![
            step(scale, degs, d),
            step(scale, degs, d + 2),
            step(scale, degs, d + 4),
            step(scale, degs, d + 6),
        ],
    };
    r
}

/// Display label for a MIDI note: solfège + letter, e.g. `note_label(60)` is
/// `"Dó (C)"`. The octave is omitted (used where matching is octave-folded).
pub fn note_label(midi: i64) -> (r: String)
    ensures
        r@ == solfege_name((midi as int) % 12) + " ("@ + letter_name((midi as int) % 12) + ")"@,
{
    let (name, _octave) = midi_name(midi);
    let pc = midi.checked_rem_euclid(12).unwrap();
    let mut out: Vec<char> = Vec::new();
    push_str(&mut out, solfege(pc));
    push_str(&mut out, " (");
    push_str(&mut out, name);
    push_str(&mut out, ")");
    assert(out@ =~= solfege_name((midi as int) % 12) + " ("@ + letter_name((midi as int) % 12) + ")"@);
    string_of(&out)
}

/// Like [`note_label`] but with the octave, e.g. `note_label_oct(60)` is
/// `"Dó (C4)"`. Used in octave-strict mode, where which octave to sing matters.
pub fn note_label_oct(midi: i64) -> (r: String)
    ensures
        r@ == solfege_name((midi as int) % 12) + " ("@ + letter_name((midi as int) % 12)
            + signed_decimal((octave_of(midi as int) as i32) as int) + ")"@,
{
    let (name, octave) = midi_name(midi);
    let pc = midi.checked_rem_euclid(12).unwrap();
    let mut out: Vec<char> = Vec::new();
    push_str(&mut out, solfege(pc));
    push_str(&mut out, " (");
    push_str(&mut out, name);
    push_signed_decimal(&mut out, octave as i64);
    push_str(&mut out, ")");
    assert(out@ =~= solfege_name((midi as int) % 12) + " ("@ + letter_name((midi as int) % 12)
        + signed_decimal((octave_of(midi as int) as i32) as int) + ")"@);
    string_of(&out)
}

/// Persisted indices round-trip: reading back a stored index gives the stored value.
pub proof fn lemma_indices_roundtrip(k: ScaleKind, m: Mode, p: PlayStyle)
    ensures
        scale_kind_at(scale_kind_index(k)) == k,
        mode_at(mode_index(m)) == m,
        play_style_at(play_style_index(p)) == p,
        0 <= scale_kind_index(k) < 10,
        0 <= mode_index(m) < 4,
        0 <= play_style_index(p) < 2,
{
}

/// Scale steps ascend: a later step is always a higher note.
pub proof fn lemma_scale_steps_ascend(s: Scale, i: int, j: int)
    requires
        0 <= i < j,
    ensures
        scale_step(s, i) < scale_step(s, j),
{
    lemma_scale_degrees(s.kind);
    let degs = scale_degrees(s.kind);
    let n = degs.len() as int;
    let (qi, ri) = (i / n, i % n);
    let (qj, rj) = (j / n, j % n);
    assert(i == qi * n + ri && 0 <= ri < n) by (nonlinear_arith)
        requires
            n > 0,
            qi == i / n,
            ri == i % n,
    ;
    assert(j == qj * n + rj && 0 <= rj < n) by (nonlinear_arith)
        requires
            n > 0,
            qj == j / n,
            rj == j % n,
    ;
    if qi == qj {
        assert(ri < rj);
        assert(degs[ri] < degs[rj]);
    } else {
        assert(qi < qj) by (nonlinear_arith)
            requires
                i == qi * n + ri,
                j == qj * n + rj,
                0 <= ri < n,
                0 <= rj < n,
                i < j,
                qi != qj,
        ;
        assert(0 <= degs[ri] < 12 && 0 <= degs[rj] < 12);
    }
}

/// The notes of every exercise item ascend strictly (chords are stacked upward).
pub proof fn lemma_item_ascends(s: Scale, mode: Mode, degree: int)
    requires
        degree >= 0,
    ensures
        forall|a: int, b: int|
            0 <= a < b < item_notes(s, mode, degree).len() ==> #[trigger] item_notes(s, mode, degree)[a]
                < #[trigger] item_notes(s, mode, degree)[b],
{
    lemma_scale_degrees(s.kind);
    let d = degree % (scale_degrees(s.kind).len() as int);
    lemma_scale_steps_ascend(s, d, d + 2);
    lemma_scale_steps_ascend(s, d + 2, d + 4);
    lemma_scale_steps_ascend(s, d + 4, d + 6);
}

} // verus!
