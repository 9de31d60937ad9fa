use ear_trainer::scale_drill::{ScaleDrill, ScaleFeedback};
use ear_trainer::scale_table::ScaleTable;
use ear_trainer::scales::{generate_scales, spell_scale, tabulate_scales, Mode};
use ear_trainer::tracker::KeyState;

const MODES: [Mode; 7] = [
    Mode::Ionian,
    Mode::Dorian,
    Mode::Phrygian,
    Mode::Lydian,
    Mode::Mixolydian,
    Mode::Aeolian,
    Mode::Locrian,
];

fn row(table: &ScaleTable, index: usize) -> Vec<String> {
    (0..table.columns()).map(|column| table.name_at(index, column).unwrap()).collect()
}

fn letters(names: &[String]) -> Vec<char> {
    names.iter().map(|name| name.chars().next().unwrap()).collect()
}

#[test]
fn mode_step_patterns_rotate_the_major_scale() {
    assert_eq!(Mode::Ionian.value(), vec![2, 2, 1, 2, 2, 2, 1]);
    assert_eq!(Mode::Dorian.value(), vec![2, 1, 2, 2, 2, 1, 2]);
    assert_eq!(Mode::Phrygian.value(), vec![1, 2, 2, 2, 1, 2, 2]);
    assert_eq!(Mode::Lydian.value(), vec![2, 2, 2, 1, 2, 2, 1]);
    assert_eq!(Mode::Mixolydian.value(), vec![2, 2, 1, 2, 2, 1, 2]);
    assert_eq!(Mode::Aeolian.value(), vec![2, 1, 2, 2, 1, 2, 2]);
    assert_eq!(Mode::Locrian.value(), vec![1, 2, 2, 1, 2, 2, 2]);
}

#[test]
fn modes_by_menu_index_and_name() {
    let names =
        ["Ionian", "Dorian", "Phrygian", "Lydian", "Mixolydian", "Aeolian", "Locrian"];
    for (index, mode) in MODES.iter().enumerate() {
        assert_eq!(Mode::from_index(index), Some(*mode));
        assert_eq!(mode.degree(), index);
        assert_eq!(mode.to_text(), names[index]);
    }
    assert_eq!(Mode::from_index(7), None);
}

#[test]
fn c_major_scale_is_spelled_in_naturals() {
    assert_eq!(
        spell_scale(0, Mode::Ionian),
        vec!["C", "D", "E", "F", "G", "A", "B", "C", "B", "A", "G", "F", "E", "D", "C"]
    );
}

#[test]
fn c_sharp_major_scale_takes_flats_where_letters_would_repeat() {
    assert_eq!(
        spell_scale(1, Mode::Ionian)[..8],
        ["C#", "D#", "F", "Gb", "Ab", "Bb", "C", "Db"]
    );
    assert_eq!(
        spell_scale(1, Mode::Ionian),
        vec![
            "C#", "D#", "F", "Gb", "Ab", "Bb", "C", "Db", "C", "Bb", "Ab", "Gb", "F", "D#", "C#"
        ]
    );
}

#[test]
fn other_modes_and_roots_are_spelled_by_the_same_rule() {
    assert_eq!(
        spell_scale(9, Mode::Aeolian)[..8],
        ["A", "B", "C", "D", "E", "F", "G", "A"]
    );
    assert_eq!(
        spell_scale(2, Mode::Dorian)[..8],
        ["D", "E", "F", "G", "A", "B", "C", "D"]
    );
    assert_eq!(
        spell_scale(5, Mode::Ionian)[..8],
        ["F", "G", "A", "Bb", "C", "D", "E", "F"]
    );
    assert_eq!(
        spell_scale(7, Mode::Ionian)[..8],
        ["G", "A", "B", "C", "D", "E", "F#", "G"]
    );
    assert_eq!(
        spell_scale(11, Mode::Locrian)[..8],
        ["B", "C", "D", "E", "F", "G", "A", "B"]
    );
    assert_eq!(
        spell_scale(1, Mode::Lydian)[..8],
        ["C#", "D#", "F", "G", "Ab", "Bb", "C", "Db"]
    );
    assert_eq!(
        spell_scale(6, Mode::Ionian)[..8],
        ["F#", "G#", "A#", "B", "C#", "D#", "F", "Gb"]
    );
    assert_eq!(
        spell_scale(3, Mode::Ionian)[..8],
        ["D#", "F", "G", "Ab", "Bb", "C", "D", "Eb"]
    );
}

#[test]
fn a_root_past_eleven_stands_for_its_step() {
    assert_eq!(spell_scale(12, Mode::Ionian), spell_scale(0, Mode::Ionian));
    assert_eq!(spell_scale(25, Mode::Lydian), spell_scale(1, Mode::Lydian));
    assert_eq!(spell_scale(usize::MAX, Mode::Ionian), spell_scale(usize::MAX % 12, Mode::Ionian));
}

#[test]
fn scales_come_down_by_the_names_they_went_up() {
    for mode in MODES.iter() {
        for root in 0..12 {
            let names = spell_scale(root, *mode);
            assert_eq!(names.len(), 15);
            for column in 0..15 {
                assert_eq!(names[column], names[14 - column]);
            }
        }
    }
}

#[test]
fn a_note_with_two_names_never_repeats_the_letter_before_it() {
    let two_named = ["C#", "Db", "D#", "Eb", "F#", "Gb", "G#", "Ab", "A#", "Bb"];
    for mode in MODES.iter() {
        for root in 0..12 {
            let names = spell_scale(root, *mode);
            let initial = letters(&names);
            for degree in 1..8 {
                if two_named.contains(&names[degree].as_str()) {
                    assert_ne!(initial[degree], initial[degree - 1], "{:?}", names);
                }
            }
        }
    }
}

#[test]
fn table_rows_follow_the_given_roots() {
    let table = tabulate_scales(&vec![1, 0, 9], Mode::Ionian);
    assert_eq!(table.rows(), 3);
    assert_eq!(table.columns(), 15);
    assert_eq!(row(&table, 0), spell_scale(1, Mode::Ionian));
    assert_eq!(row(&table, 1), spell_scale(0, Mode::Ionian));
    assert_eq!(row(&table, 2), spell_scale(9, Mode::Ionian));
    assert_eq!(table.name_at(0, 3), Some("Gb".to_string()));
    assert_eq!(table.name_at(2, 14), Some("A".to_string()));
    assert_eq!(table.name_at(3, 0), None);
    assert_eq!(table.name_at(0, 15), None);
}

#[test]
fn an_empty_table_has_no_rows() {
    let table = tabulate_scales(&vec![], Mode::Dorian);
    assert_eq!(table.rows(), 0);
    assert_eq!(table.name_at(0, 0), None);
}

#[test]
fn generated_table_has_each_root_once() {
    for mode in MODES.iter() {
        let table = generate_scales(*mode);
        assert_eq!(table.rows(), 12);
        assert_eq!(table.columns(), 15);
        let mut seen = [false; 12];
        for index in 0..12 {
            let names = row(&table, index);
            let root = (0..12).find(|root| spell_scale(*root, *mode) == names);
            let root = root.unwrap();
            assert!(!seen[root]);
            seen[root] = true;
        }
        assert!(seen.iter().all(|s| *s));
    }
}

#[test]
fn generated_table_comes_shuffled() {
    let listed: Vec<String> = (0..12).map(|root| spell_scale(root, Mode::Ionian)[0].clone()).collect();
    let mut moved = false;
    for _ in 0..20 {
        let table = generate_scales(Mode::Ionian);
        let roots: Vec<String> = (0..12).map(|index| table.name_at(index, 0).unwrap()).collect();
        if roots != listed {
            moved = true;
        }
    }
    assert!(moved);
}

#[test]
fn scale_drill_walks_the_table_row_by_row() {
    let table = tabulate_scales(&vec![0, 1], Mode::Ionian);
    let mut drill = ScaleDrill::from_table(&table);
    assert_eq!(drill.remaining(), 30);
    assert_eq!(drill.position(), (0, 0));
    assert_eq!(drill.current().cloned(), Some("C".to_string()));
    assert_eq!(drill.judge(Some(62)), ScaleFeedback::Wrong(62));
    assert_eq!(drill.judge(None), ScaleFeedback::Nothing);
    assert_eq!(drill.remaining(), 30);
    assert_eq!(drill.judge(Some(48)), ScaleFeedback::Right);
    assert_eq!(drill.position(), (0, 1));
    assert_eq!(drill.current().cloned(), Some("D".to_string()));
    let up_and_down = [62u8, 64, 65, 67, 69, 71, 72, 71, 69, 67, 65, 64, 62, 60];
    for note in up_and_down.iter() {
        assert_eq!(drill.judge(Some(*note)), ScaleFeedback::Right);
    }
    assert_eq!(drill.position(), (1, 0));
    assert_eq!(drill.current().cloned(), Some("C#".to_string()));
    assert_eq!(drill.remaining(), 15);
}

#[test]
fn scale_drill_takes_either_name_of_a_step() {
    let table = tabulate_scales(&vec![1], Mode::Ionian);
    let mut drill = ScaleDrill::from_table(&table);
    let steps = [1u8, 3, 5, 6, 8, 10, 0, 1, 0, 10, 8, 6, 5, 3, 1];
    let mut right = 0;
    for step in steps.iter() {
        assert_eq!(drill.judge(Some(60 + (step + 1) % 12)), ScaleFeedback::Wrong(60 + (step + 1) % 12));
        assert_eq!(drill.judge(Some(36 + step)), ScaleFeedback::Right);
        right += 1;
        assert_eq!(drill.remaining(), 15 - right);
    }
    assert!(drill.is_complete());
    assert!(drill.current().is_none());
    assert_eq!(drill.judge(Some(61)), ScaleFeedback::Nothing);
    assert_eq!(drill.position(), (1, 0));
}

#[test]
fn a_fresh_scale_drill_has_all_notes_of_twelve_scales() {
    let drill = ScaleDrill::new(Mode::Mixolydian);
    assert_eq!(drill.remaining(), 180);
    assert_eq!(drill.position(), (0, 0));
    assert!(!drill.is_complete());
}

#[test]
fn scale_step_judges_the_note_pressed_last() {
    let table = tabulate_scales(&vec![0], Mode::Ionian);
    let mut drill = ScaleDrill::from_table(&table);
    let mut keys = KeyState::new();
    keys.note_on(62, 0);
    keys.note_on(60, 50);
    assert_eq!(drill.step(&mut keys, 150, 100), ScaleFeedback::Nothing);
    assert_eq!(drill.step(&mut keys, 151, 100), ScaleFeedback::Right);
    assert_eq!(drill.step(&mut keys, 400, 100), ScaleFeedback::Nothing);
    assert_eq!(keys.note_off(62, 500), Ok(()));
    assert_eq!(drill.step(&mut keys, 601, 100), ScaleFeedback::Wrong(60));
    assert_eq!(keys.note_off(60, 700), Ok(()));
    assert_eq!(drill.step(&mut keys, 900, 100), ScaleFeedback::Nothing);
    assert_eq!(keys.snapshot(), (vec![], None));
    assert_eq!(drill.remaining(), 14);
}
