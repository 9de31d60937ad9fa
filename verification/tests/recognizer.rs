use ear_trainer::chord::{Chord, ChordType};
use ear_trainer::recognizer::{classify, identify_chord, sorted_notes};

fn named(found: Option<Chord>) -> Option<(String, ChordType, usize, Option<u8>)> {
    found.map(|chord| (chord.root.clone(), chord.chord_type, chord.inversion, chord.octave))
}

fn expect(held: &[u8], root: &str, chord_type: ChordType, inversion: usize, octave: Option<u8>) {
    assert_eq!(
        named(identify_chord(&held.to_vec())),
        Some((root.to_string(), chord_type, inversion, octave)),
        "held {:?}",
        held
    );
}

#[test]
fn identifies_c_major_in_each_inversion() {
    expect(&[60, 64, 67], "C", ChordType::Major, 0, Some(3));
    expect(&[64, 67, 72], "C", ChordType::Major, 1, Some(3));
    expect(&[67, 72, 76], "C", ChordType::Major, 2, Some(3));
}

#[test]
fn identification_ignores_press_order() {
    let orders: [[u8; 3]; 6] = [
        [64, 67, 72],
        [64, 72, 67],
        [67, 64, 72],
        [67, 72, 64],
        [72, 64, 67],
        [72, 67, 64],
    ];
    for held in orders.iter() {
        expect(held, "C", ChordType::Major, 1, Some(3));
    }
    expect(&[70, 60, 67, 64], "C", ChordType::DominantSeventh, 0, Some(3));
}

#[test]
fn identifies_every_type_in_root_position() {
    let table: [(ChordType, &[u8]); 12] = [
        (ChordType::Major, &[62, 66, 69]),
        (ChordType::Minor, &[62, 65, 69]),
        (ChordType::Diminished, &[62, 65, 68]),
        (ChordType::MajorSeventh, &[62, 66, 69, 73]),
        (ChordType::MinorSeventh, &[62, 65, 69, 72]),
        (ChordType::DominantSeventh, &[62, 66, 69, 72]),
        (ChordType::Augmented, &[62, 66, 70]),
        (ChordType::SusTwo, &[62, 64, 69]),
        (ChordType::SusFour, &[62, 67, 69]),
        (ChordType::SevenSusTwo, &[62, 64, 69, 72]),
        (ChordType::SevenSusFour, &[62, 67, 69, 72]),
        (ChordType::SusSix, &[62, 66, 69, 71]),
    ];
    for (chord_type, held) in table.iter() {
        expect(held, "D", *chord_type, 0, Some(3));
    }
}

#[test]
fn identifies_inversions_of_four_note_chords() {
    expect(&[64, 67, 70, 72], "C", ChordType::DominantSeventh, 1, Some(3));
    expect(&[67, 70, 72, 76], "C", ChordType::DominantSeventh, 2, Some(3));
    expect(&[70, 72, 76, 79], "C", ChordType::DominantSeventh, 3, Some(3));
    expect(&[71, 72, 76, 79], "C", ChordType::MajorSeventh, 3, Some(3));
}

#[test]
fn unlisted_positions_spell_nothing() {
    assert_eq!(named(identify_chord(&vec![60, 61, 62])), None);
    assert_eq!(named(identify_chord(&vec![60, 62, 64])), None);
    assert_eq!(named(identify_chord(&vec![60, 66, 72])), None);
    assert_eq!(named(identify_chord(&vec![60, 64, 67, 69, 72])), None);
    assert_eq!(named(identify_chord(&vec![60, 80, 85])), None);
}

#[test]
fn positions_unlisted_from_the_bass_may_match_a_later_guess() {
    expect(&[60, 63, 68], "G#", ChordType::Major, 1, Some(2));
    expect(&[60, 63, 69], "A", ChordType::Diminished, 1, Some(2));
}

#[test]
fn fewer_than_three_notes_spell_nothing() {
    assert_eq!(named(identify_chord(&vec![])), None);
    assert_eq!(named(identify_chord(&vec![60])), None);
    assert_eq!(named(identify_chord(&vec![60, 64])), None);
    assert_eq!(named(identify_chord(&vec![60, 67])), None);
    for low in 0..=255u8 {
        for high in low..=255u8 {
            assert!(identify_chord(&vec![low, high]).is_none());
        }
    }
}

#[test]
fn repeated_notes_spell_nothing() {
    assert_eq!(named(identify_chord(&vec![60, 60, 64, 67])), None);
    assert_eq!(named(identify_chord(&vec![60, 60, 60])), None);
}

#[test]
fn ambiguous_inversions_read_as_the_lower_inversion() {
    expect(&[64, 68, 72], "E", ChordType::Augmented, 0, Some(3));
    expect(&[63, 67, 70, 72], "D#", ChordType::SusSix, 0, Some(3));
    expect(&[69, 72, 76, 79], "A", ChordType::MinorSeventh, 0, Some(3));
    expect(&[67, 72, 74], "G", ChordType::SusFour, 0, Some(3));
    expect(&[65, 67, 72], "F", ChordType::SusTwo, 0, Some(3));
    expect(&[67, 72, 77], "F", ChordType::SusTwo, 1, Some(3));
}

#[test]
fn octave_is_that_of_the_root_after_rotation() {
    expect(&[36, 40, 43], "C", ChordType::Major, 0, Some(1));
    expect(&[40, 43, 48], "C", ChordType::Major, 1, Some(1));
    expect(&[24, 28, 31], "C", ChordType::Major, 0, Some(0));
    expect(&[28, 31, 36], "C", ChordType::Major, 1, Some(0));
    expect(&[247, 251, 254], "G", ChordType::Major, 0, Some(18));
}

#[test]
fn chords_below_the_lowest_octave_have_no_octave() {
    expect(&[0, 4, 7], "C", ChordType::Major, 0, None);
    expect(&[12, 16, 19], "C", ChordType::Major, 0, None);
    expect(&[4, 7, 12], "C", ChordType::Major, 1, None);
    expect(&[3, 6, 11], "B", ChordType::Major, 1, None);
    expect(&[27, 30, 35], "B", ChordType::Major, 1, None);
    expect(&[0, 5, 9], "F", ChordType::Major, 2, None);
}

#[test]
fn classify_finds_exact_signatures_only() {
    assert_eq!(classify(&vec![0, 4, 7]), Some(ChordType::Major));
    assert_eq!(classify(&vec![0, 3, 7]), Some(ChordType::Minor));
    assert_eq!(classify(&vec![0, 3, 6]), Some(ChordType::Diminished));
    assert_eq!(classify(&vec![0, 4, 8]), Some(ChordType::Augmented));
    assert_eq!(classify(&vec![0, 4, 7, 11]), Some(ChordType::MajorSeventh));
    assert_eq!(classify(&vec![0, 3, 7, 10]), Some(ChordType::MinorSeventh));
    assert_eq!(classify(&vec![0, 4, 7, 10]), Some(ChordType::DominantSeventh));
    assert_eq!(classify(&vec![0, 2, 7]), Some(ChordType::SusTwo));
    assert_eq!(classify(&vec![0, 5, 7]), Some(ChordType::SusFour));
    assert_eq!(classify(&vec![0, 2, 7, 10]), Some(ChordType::SevenSusTwo));
    assert_eq!(classify(&vec![0, 5, 7, 10]), Some(ChordType::SevenSusFour));
    assert_eq!(classify(&vec![0, 4, 7, 9]), Some(ChordType::SusSix));
    assert_eq!(classify(&vec![]), None);
    assert_eq!(classify(&vec![0]), None);
    assert_eq!(classify(&vec![0, 4]), None);
    assert_eq!(classify(&vec![0, 7, 4]), None);
    assert_eq!(classify(&vec![0, 4, 7, 12]), None);
    assert_eq!(classify(&vec![0, -8, 7]), None);
}

#[test]
fn sorted_notes_are_ascending_and_keep_every_note() {
    assert_eq!(sorted_notes(&vec![]), Vec::<u8>::new());
    assert_eq!(sorted_notes(&vec![5]), vec![5]);
    assert_eq!(sorted_notes(&vec![72, 64, 67]), vec![64, 67, 72]);
    assert_eq!(sorted_notes(&vec![3, 1, 3, 2, 1, 255, 0]), vec![0, 1, 1, 2, 3, 3, 255]);
}
