use ear_trainer::intervals::{
    generate_interval_list, get_letter, interval_list, interval_name, interval_pitches,
    pick_root, Hint, IntervalDrill, Letter, REFERENCE_OCTAVE, WIDEST_INTERVAL,
};

fn plain(pitches: (ear_trainer::intervals::Pitch, ear_trainer::intervals::Pitch)) -> ((String, usize), (String, usize)) {
    ((pitches.0.name, pitches.0.octave), (pitches.1.name, pitches.1.octave))
}

fn pitch(name: &str, octave: usize) -> (String, usize) {
    (name.to_string(), octave)
}

#[test]
fn interval_menu_names() {
    let names = [
        "0) Unison",
        "1) Minor Second",
        "2) Major Second",
        "3) Minor Third",
        "4) Major Third",
        "5) Perfect Fourth",
        "6) Tritone",
        "7) Perfect Fifth",
        "8) Minor Sixth",
        "9) Major Sixth",
        "10) Minor Seventh",
        "11) Major Seventh",
        "12) Perfect Octave",
    ];
    for (width, name) in names.iter().enumerate() {
        assert_eq!(interval_name(width), Some(*name));
    }
    assert_eq!(interval_name(13), None);
    assert_eq!(WIDEST_INTERVAL, 12);
    assert_eq!(REFERENCE_OCTAVE, 3);
}

#[test]
fn interval_pitches_from_c() {
    assert_eq!(plain(interval_pitches(0, 0)), (pitch("C", 3), pitch("C", 3)));
    assert_eq!(plain(interval_pitches(0, 1)), (pitch("C", 3), pitch("C#", 3)));
    assert_eq!(plain(interval_pitches(0, 7)), (pitch("C", 3), pitch("G", 3)));
    assert_eq!(plain(interval_pitches(0, 11)), (pitch("C", 3), pitch("B", 3)));
    assert_eq!(plain(interval_pitches(0, 12)), (pitch("C", 3), pitch("C", 4)));
}

#[test]
fn interval_pitches_carry_into_the_next_octave() {
    assert_eq!(plain(interval_pitches(11, 0)), (pitch("B", 3), pitch("B", 3)));
    assert_eq!(plain(interval_pitches(11, 1)), (pitch("B", 3), pitch("C", 4)));
    assert_eq!(plain(interval_pitches(11, 12)), (pitch("B", 3), pitch("B", 4)));
    assert_eq!(plain(interval_pitches(9, 3)), (pitch("A", 3), pitch("C", 4)));
    assert_eq!(plain(interval_pitches(6, 5)), (pitch("F#", 3), pitch("B", 3)));
    assert_eq!(plain(interval_pitches(1, 25)), (pitch("C#", 3), pitch("D", 5)));
}

#[test]
fn letters_by_name() {
    let table = [
        ("Ab", Letter::Ab),
        ("A", Letter::A),
        ("A#", Letter::Ash),
        ("Bb", Letter::Bb),
        ("B", Letter::B),
        ("C", Letter::C),
        ("C#", Letter::Csh),
        ("Db", Letter::Db),
        ("D", Letter::D),
        ("D#", Letter::Dsh),
        ("Eb", Letter::Eb),
        ("E", Letter::E),
        ("F", Letter::F),
        ("F#", Letter::Fsh),
        ("Gb", Letter::Gb),
        ("G", Letter::G),
        ("G#", Letter::Gsh),
    ];
    for (name, letter) in table.iter() {
        assert_eq!(get_letter(name), *letter);
    }
}

#[test]
fn unknown_names_stand_for_c() {
    assert_eq!(get_letter(""), Letter::C);
    assert_eq!(get_letter("H"), Letter::C);
    assert_eq!(get_letter("c#"), Letter::C);
    assert_eq!(get_letter("E#"), Letter::C);
    assert_eq!(get_letter("Cb"), Letter::C);
}

#[test]
fn fixed_root_is_c() {
    for _ in 0..20 {
        assert_eq!(pick_root(false), 0);
    }
}

#[test]
fn random_root_is_a_chromatic_step() {
    let mut seen = [false; 12];
    for _ in 0..2000 {
        let root = pick_root(true);
        assert!(root < 12);
        seen[root] = true;
    }
    assert!(seen.iter().filter(|s| **s).count() > 1);
}

#[test]
fn interval_list_runs_from_unison_to_octave() {
    assert_eq!(interval_list(), (0..=12).collect::<Vec<usize>>());
}

#[test]
fn generated_interval_list_has_each_width_once() {
    for _ in 0..10 {
        let mut widths = generate_interval_list();
        assert_eq!(widths.len(), 13);
        widths.sort();
        assert_eq!(widths, (0..=12).collect::<Vec<usize>>());
    }
}

#[test]
fn generated_interval_list_comes_shuffled() {
    let listed = interval_list();
    let mut moved = false;
    for _ in 0..20 {
        if generate_interval_list() != listed {
            moved = true;
        }
    }
    assert!(moved);
}

#[test]
fn guesses_earn_hints() {
    let mut drill = IntervalDrill::from_widths(vec![7, 0, 12]);
    assert_eq!(drill.current(), Some(7));
    assert_eq!(drill.guess(9), Hint::LessThanThat);
    assert_eq!(drill.guess(12), Hint::LessThanThat);
    assert_eq!(drill.guess(0), Hint::MoreThanThat);
    assert_eq!(drill.guess(6), Hint::MoreThanThat);
    assert_eq!(drill.remaining(), 3);
    assert_eq!(drill.guess(7), Hint::Correct);
    assert_eq!(drill.remaining(), 2);
    assert_eq!(drill.current(), Some(0));
    assert_eq!(drill.guess(1), Hint::LessThanThat);
    assert_eq!(drill.guess(0), Hint::Correct);
    assert_eq!(drill.guess(11), Hint::MoreThanThat);
    assert_eq!(drill.guess(12), Hint::Correct);
    assert!(drill.is_complete());
    assert_eq!(drill.current(), None);
    assert_eq!(drill.guess(12), Hint::Nothing);
}

#[test]
fn an_interval_drill_ends_after_thirteen_correct_guesses() {
    let mut drill = IntervalDrill::new();
    assert_eq!(drill.remaining(), 13);
    let mut correct = 0;
    while let Some(width) = drill.current() {
        let wrong = (width + 5) % 13;
        let hint = drill.guess(wrong);
        assert_eq!(hint, if wrong > width { Hint::LessThanThat } else { Hint::MoreThanThat });
        assert_eq!(drill.guess(width), Hint::Correct);
        correct += 1;
        assert_eq!(drill.remaining(), 13 - correct);
    }
    assert_eq!(correct, 13);
    assert!(drill.is_complete());
}
