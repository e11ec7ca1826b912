use sceno::presets::{margin_for_slot, FontSize, Instrument, MeterStyle, Source, Timbre, PITCH};

#[test]
fn source_index_roundtrips() {
    for s in [Source::Manual, Source::Song, Source::Detect] {
        assert_eq!(Source::from_idx(s.index()), s);
    }
    assert_eq!(Source::from_idx(99), Source::Manual);
}

#[test]
fn fontsize_from_idx_roundtrips() {
    for (i, expected) in [(0, FontSize::Small), (1, FontSize::Medium), (2, FontSize::Large)] {
        assert_eq!(FontSize::from_idx(i), expected);
        assert_eq!(expected.index(), i);
    }
}

#[test]
fn fontsize_unknown_idx_defaults_to_medium() {
    assert_eq!(FontSize::from_idx(99), FontSize::Medium);
}

#[test]
fn margin_for_slot_steps_by_pitch() {
    assert_eq!(margin_for_slot(0), (0, 0, 40, 0));
    assert_eq!(margin_for_slot(1), (0, 0, 40 + 88, 0));
    assert_eq!(margin_for_slot(2), (0, 0, 40 + 176, 0));
}

#[test]
fn adjacent_slots_differ_by_one_pitch() {
    for slot in 0..10usize {
        assert_eq!(margin_for_slot(slot + 1).2 - margin_for_slot(slot).2, PITCH);
    }
}

#[test]
fn idx_roundtrips() {
    for inst in Instrument::ALL {
        assert_eq!(Instrument::from_idx(inst.index()), inst);
    }
}

#[test]
fn unknown_idx_falls_back_to_chromatic() {
    assert_eq!(Instrument::from_idx(99), Instrument::Chromatic);
}

#[test]
fn target_counts() {
    assert_eq!(Instrument::Chromatic.targets().len(), 0);
    assert_eq!(Instrument::Guitar.targets().len(), 6);
    assert_eq!(Instrument::Bass.targets().len(), 4);
    assert_eq!(Instrument::Ukulele.targets().len(), 4);
    assert_eq!(Instrument::Violin.targets().len(), 4);
}

#[test]
fn guitar_strings_are_standard_tuning() {
    assert_eq!(Instrument::Guitar.targets(), &[40, 45, 50, 55, 59, 64]);
    assert_eq!(Instrument::Guitar.label(), "Viol\u{e3}o");
}

#[test]
fn style_index_roundtrips() {
    for s in [MeterStyle::Needle, MeterStyle::CenterBar, MeterStyle::Strobe] {
        assert_eq!(MeterStyle::from_idx(s.index()), s);
    }
}

#[test]
fn style_unknown_idx_defaults_to_needle() {
    assert_eq!(MeterStyle::from_idx(99), MeterStyle::Needle);
}

#[test]
fn timbre_idx_roundtrips() {
    assert_eq!(Timbre::from_idx(Timbre::ElectricPiano.index()), Timbre::ElectricPiano);
    assert_eq!(Timbre::from_idx(Timbre::Sine.index()), Timbre::Sine);
    assert_eq!(Timbre::from_idx(99), Timbre::ElectricPiano);
}

#[test]
fn source_labels() {
    assert_eq!(Source::Manual.label(), "Manual");
    assert_eq!(Source::Song.label(), "Seguir m\u{fa}sica");
    assert_eq!(Source::Detect.label(), "Detectar \u{e1}udio");
}
