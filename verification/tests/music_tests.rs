use sceno::music::{item_at, midi_name, note_label, note_label_oct, Mode, PlayStyle, Scale, ScaleKind};

#[test]
fn midi_name_maps_numbers() {
    assert_eq!(midi_name(60), ("C", 4));
    assert_eq!(midi_name(69), ("A", 4));
    assert_eq!(midi_name(67), ("G", 4));
    assert_eq!(midi_name(57), ("A", 3));
}

#[test]
fn midi_name_below_zero_uses_euclidean_octaves() {
    assert_eq!(midi_name(0), ("C", -1));
    assert_eq!(midi_name(-1), ("B", -2));
    assert_eq!(midi_name(72), ("C", 5));
}

#[test]
fn scale_kind_idx_roundtrips() {
    for k in ScaleKind::ALL {
        assert_eq!(ScaleKind::from_idx(k.index()), k);
    }
    assert_eq!(ScaleKind::from_idx(99), ScaleKind::Major);
}

#[test]
fn mode_idx_roundtrips() {
    for m in Mode::ALL {
        assert_eq!(Mode::from_idx(m.index()), m);
    }
}

#[test]
fn play_style_idx_roundtrips() {
    for p in PlayStyle::ALL {
        assert_eq!(PlayStyle::from_idx(p.index()), p);
    }
}

#[test]
fn degree_counts() {
    assert_eq!(ScaleKind::Major.degrees().len(), 7);
    assert_eq!(ScaleKind::NaturalMinor.degrees().len(), 7);
    assert_eq!(ScaleKind::Chromatic.degrees().len(), 12);
    for k in [
        ScaleKind::Dorian,
        ScaleKind::Phrygian,
        ScaleKind::Lydian,
        ScaleKind::Mixolydian,
        ScaleKind::Locrian,
        ScaleKind::HarmonicMinor,
        ScaleKind::MelodicMinor,
    ] {
        assert_eq!(k.degrees().len(), 7, "{:?}", k);
    }
}

#[test]
fn mode_degrees_are_correct() {
    assert_eq!(ScaleKind::Dorian.degrees(), &[0, 2, 3, 5, 7, 9, 10]);
    assert_eq!(ScaleKind::Lydian.degrees(), &[0, 2, 4, 6, 7, 9, 11]);
    assert_eq!(ScaleKind::Mixolydian.degrees(), &[0, 2, 4, 5, 7, 9, 10]);
    assert_eq!(ScaleKind::HarmonicMinor.degrees(), &[0, 2, 3, 5, 7, 8, 11]);
    assert_eq!(ScaleKind::MelodicMinor.degrees(), &[0, 2, 3, 5, 7, 9, 11]);
}

#[test]
fn all_kinds_label_and_index_align() {
    for (i, k) in ScaleKind::ALL.iter().enumerate() {
        assert_eq!(k.index(), i);
        assert!(!k.label().is_empty());
    }
}

#[test]
fn octave_root_midi_maps_pitch_class() {
    assert_eq!(Scale { root: 0, kind: ScaleKind::Major }.octave_root_midi(), 60);
    assert_eq!(Scale { root: 9, kind: ScaleKind::NaturalMinor }.octave_root_midi(), 69);
}

#[test]
fn note_item_picks_degree() {
    let s = Scale { root: 0, kind: ScaleKind::Major };
    assert_eq!(item_at(&s, Mode::Notes, 0), vec![60]);
    assert_eq!(item_at(&s, Mode::Notes, 4), vec![67]);
}

#[test]
fn chord_item_stacks_triad() {
    let s = Scale { root: 0, kind: ScaleKind::Major };
    assert_eq!(item_at(&s, Mode::Triad, 0), vec![60, 64, 67]);
    assert_eq!(item_at(&s, Mode::Triad, 1), vec![62, 65, 69]);
}

#[test]
fn chord_item_in_a_minor() {
    let s = Scale { root: 9, kind: ScaleKind::NaturalMinor };
    assert_eq!(item_at(&s, Mode::Triad, 0), vec![69, 72, 76]);
}

#[test]
fn power_chord_is_perfect_fifth() {
    let s = Scale { root: 0, kind: ScaleKind::Major };
    assert_eq!(item_at(&s, Mode::PowerChord, 0), vec![60, 67]);
    assert_eq!(item_at(&s, Mode::PowerChord, 6), vec![71, 78]);
}

#[test]
fn tetrad_stacks_seventh() {
    let s = Scale { root: 0, kind: ScaleKind::Major };
    assert_eq!(item_at(&s, Mode::Tetrad, 0), vec![60, 64, 67, 71]);
}

#[test]
fn triad_wraps_into_next_octave() {
    let s = Scale { root: 0, kind: ScaleKind::Major };
    assert_eq!(item_at(&s, Mode::Triad, 6), vec![71, 74, 77]);
    assert_eq!(s.degree_count(), 7);
}

#[test]
fn note_label_is_solfege_and_letter() {
    assert_eq!(note_label(60), "D\u{f3} (C)");
    assert_eq!(note_label(69), "L\u{e1} (A)");
    assert_eq!(note_label(61), "D\u{f3}# (C#)");
}

#[test]
fn note_label_oct_includes_octave() {
    assert_eq!(note_label_oct(60), "D\u{f3} (C4)");
    assert_eq!(note_label_oct(69), "L\u{e1} (A4)");
    assert_eq!(note_label_oct(48), "D\u{f3} (C3)");
}

#[test]
fn items_ascend_in_every_mode() {
    for k in ScaleKind::ALL {
        let s = Scale { root: 7, kind: k };
        for m in Mode::ALL {
            for d in 0..s.degree_count() {
                let item = item_at(&s, m, d);
                assert!(item.windows(2).all(|w| w[0] < w[1]), "{k:?} {m:?} {d}");
            }
        }
    }
}
