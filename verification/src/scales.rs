//! Scales: the seven modes of the major scale, spelled note by note from a
//! root, and the table of all twelve of a mode in random root order.

use vstd::prelude::*;
use vstd::string::*;
use crate::chance::shuffle;
use crate::pitch::{alternate_name, canonical_name, step_alternate, step_name};
use crate::scale_table::{ScaleTable, TABLE_SIDE_LIMIT};

verus! {

/// Number of steps in a scale before it reaches the octave.
pub const SCALE_DEGREES: usize = 7;

/// Number of notes in a scale played up to the octave and back down.
pub const SCALE_LENGTH: usize = 15;

/// The whole and half steps of the major scale, in semitones.
pub open spec fn major_scale_intervals() -> Seq<int> {
    seq![2int, 2, 1, 2, 2, 2, 1]
}

/// The modes of the major scale: each starts the major scale's step pattern
/// one degree later than the one before.
#[derive(Debug, Copy, Clone, PartialEq, Eq, Structural)]
pub enum Mode {
    Ionian,
    Dorian,
    Phrygian,
    Lydian,
    Mixolydian,
    Aeolian,
    Locrian,
}

impl Mode {
    /// The degree of the major scale on which this mode starts.
    pub open spec fn offset(self) -> int {
        match self {
            Mode::Ionian => 0,
            Mode::Dorian => 1,
            Mode::Phrygian => 2,
            Mode::Lydian => 3,
            Mode::Mixolydian => 4,
            Mode::Aeolian => 5,
            Mode::Locrian => 6,
        }
    }

    /// The step pattern of this mode: that of the major scale, started at
    /// the mode's degree and wrapped around.
    pub open spec fn intervals(self) -> Seq<int> {
        Seq::new(7, |degree: int| major_scale_intervals()[(degree + self.offset()) % 7])
    }

    /// The name of this mode.
    pub open spec fn label(self) -> Seq<char> {
        match self {
            Mode::Ionian => "Ionian"@,
            Mode::Dorian => "Dorian"@,
            Mode::Phrygian => "Phrygian"@,
            Mode::Lydian => "Lydian"@,
            Mode::Mixolydian => "Mixolydian"@,
            Mode::Aeolian => "Aeolian"@,
            Mode::Locrian => "Locrian"@,
        }
    }

    /// The mode at a position of the menu of the seven modes, Ionian first.
    pub fn from_index(index: usize) -> (mode: Option<Mode>)
        ensures
            match mode {
                Some(found) => index < 7 && found.offset() == index,
                None => index >= 7,
            },
    {
        match index {
            0 => Some(Mode::Ionian),
            1 => Some(Mode::Dorian),
            2 => Some(Mode::Phrygian),
            3 => Some(Mode::Lydian),
            4 => Some(Mode::Mixolydian),
            5 => Some(Mode::Aeolian),
            6 => Some(Mode::Locrian),
            _ => None,
        }
    }

    /// The degree of the major scale on which this mode starts.
    pub fn degree(&self) -> (degree: usize)
        ensures
            degree == self.offset(),
    {
        match *self {
            Mode::Ionian => 0,
            Mode::Dorian => 1,
            Mode::Phrygian => 2,
            Mode::Lydian => 3,
            Mode::Mixolydian => 4,
            Mode::Aeolian => 5,
            Mode::Locrian => 6,
        }
    }

    /// The step pattern of this mode, in semitones.
    pub fn value(&self) -> (steps: Vec<usize>)
        ensures
            steps@.map_values(|step: usize| step as int) == self.intervals(),
    {
        let start = self.degree();
        let mut steps: Vec<usize> = Vec::new();
        let mut degree: usize = 0;
        while degree < SCALE_DEGREES
            invariant
                degree <= 7,
                start == self.offset(),
                steps.len() == degree,
                forall|d: int| 0 <= d < degree ==> steps[d] == self.intervals()[d],
            decreases 7 - degree,
        {
            let at = (degree + start) % SCALE_DEGREES;
            let step: usize = if at == 2 || at == 6 {
                1
            } else {
                2
            };
            steps.push(step);
            degree += 1;
        }
        assert(steps@.map_values(|step: usize| step as int) =~= self.intervals());
        steps
    }

    /// The name of this mode.
    pub fn to_text(&self) -> (text: String)
        ensures
            text@ == self.label(),
    {
        match *self {
            Mode::Ionian => String::from_str("Ionian"),
            Mode::Dorian => String::from_str("Dorian"),
            Mode::Phrygian => String::from_str("Phrygian"),
            Mode::Lydian => String::from_str("Lydian"),
            Mode::Mixolydian => String::from_str("Mixolydian"),
            Mode::Aeolian => String::from_str("Aeolian"),
            Mode::Locrian => String::from_str("Locrian"),
        }
    }
}

/// How many semitones above the root the scale's `degree`-th note lies; the
/// step pattern repeats from the octave on.
pub open spec fn climbed(mode: Mode, degree: nat) -> int
    decreases degree,
{
    if degree == 0 {
        0
    } else {
        climbed(mode, (degree - 1) as nat) + mode.intervals()[(degree - 1) % 7]
    }
}

/// The chromatic step of the scale's `degree`-th note.
pub open spec fn degree_step(root: int, mode: Mode, degree: nat) -> int {
    (root + climbed(mode, degree)) % 12
}

/// The name under which the scale's `degree`-th note is written: its usual
/// name, unless that starts with the letter of the note before and the step
/// has a second name, which is then taken.
pub open spec fn spelled(root: int, mode: Mode, degree: nat) -> Seq<char>
    decreases degree,
{
    let step = degree_step(root, mode, degree);
    if degree > 0 && alternate_name(step) is Some && canonical_name(step)[0] == spelled(
        root,
        mode,
        (degree - 1) as nat,
    )[0] {
        alternate_name(step).unwrap()
    } else {
        canonical_name(step)
    }
}

/// A scale as it is drilled: up from the root to the octave and back down
/// to the root, fifteen notes.
pub open spec fn scale_row(root: int, mode: Mode) -> Seq<Seq<char>> {
    Seq::new(
        15,
        |column: int|
            spelled(
                root,
                mode,
                (if column <= 7 {
                    column
                } else {
                    14 - column
                }) as nat,
            ),
    )
}

/// The table of the scales on the given roots, one row each.
pub open spec fn scale_table(roots: Seq<usize>, mode: Mode) -> Seq<Seq<Seq<char>>> {
    Seq::new(roots.len(), |row: int| scale_row(roots[row] as int, mode))
}

/// The twelve roots in chromatic order.
pub open spec fn chromatic_roots() -> Seq<usize> {
    Seq::new(12, |step: int| step as usize)
}

/// The characters of each name of a list.
pub open spec fn name_views(names: Seq<String>) -> Seq<Seq<char>> {
    names.map_values(|name: String| name@)
}

/// Every name is at least one letter long, and a step's second name starts
/// with another letter than its usual one.
pub proof fn lemma_name_letters(step: int)
    ensures
        canonical_name(step).len() >= 1,
        alternate_name(step) matches Some(other) ==> other.len() >= 1 && other[0]
            != canonical_name(step)[0],
{
    reveal_strlit("C");
    reveal_strlit("C#");
    reveal_strlit("Db");
    reveal_strlit("D");
    reveal_strlit("D#");
    reveal_strlit("Eb");
    reveal_strlit("E");
    reveal_strlit("F");
    reveal_strlit("F#");
    reveal_strlit("Gb");
    reveal_strlit("G");
    reveal_strlit("G#");
    reveal_strlit("Ab");
    reveal_strlit("A");
    reveal_strlit("A#");
    reveal_strlit("Bb");
    reveal_strlit("B");
}

/// Every spelled name is at least one letter long.
pub proof fn lemma_spelled_letters(root: int, mode: Mode, degree: nat)
    ensures
        spelled(root, mode, degree).len() >= 1,
{
    lemma_name_letters(degree_step(root, mode, degree));
}

/// Scale spelling: where a note of the scale has a second name, the name it
/// is written under never starts with the letter of the note before it.
pub proof fn lemma_spelling_avoids_repeats(root: int, mode: Mode, degree: nat)
    requires
        degree >= 1,
        alternate_name(degree_step(root, mode, degree)) is Some,
    ensures
        spelled(root, mode, degree)[0] != spelled(root, mode, (degree - 1) as nat)[0],
{
    lemma_name_letters(degree_step(root, mode, degree));
}

/// A scale row climbs by the spelled names and comes down by the same
/// names: it reads the same in both directions, and on the way up no note
/// that has a second name shares its letter with the note before.
pub proof fn lemma_scale_row(root: int, mode: Mode)
    ensures
        scale_row(root, mode).len() == 15,
        forall|column: int|
            0 <= column < 15 ==> #[trigger] scale_row(root, mode)[column] == scale_row(
                root,
                mode,
            )[14 - column],
        forall|column: int|
            1 <= column <= 7 && alternate_name(degree_step(root, mode, column as nat)) is Some
                ==> (#[trigger] scale_row(root, mode)[column])[0] != scale_row(root, mode)[column
                - 1][0],
{
    let row = scale_row(root, mode);
    assert forall|column: int|
        1 <= column <= 7 && alternate_name(
            degree_step(root, mode, column as nat),
        ) is Some implies (#[trigger] row[column])[0] != row[column - 1][0] by {
        lemma_spelling_avoids_repeats(root, mode, column as nat);
    }
}

/// The first letter of a name.
fn first_letter(name: &str) -> (letter: char)
    requires
        name@.len() >= 1,
    ensures
        letter == name@[0],
{
    name.get_char(0)
}

/// The notes of the scale on `root` in `mode`, up to the octave and back
/// down, each under the name that the spelling rule gives it. A root beyond
/// eleven stands for the chromatic step it falls on.
pub fn spell_scale(root: usize, mode: Mode) -> (names: Vec<String>)
    ensures
        name_views(names@) == scale_row(root as int, mode),
        names.len() == 15,
{
    let steps = mode.value();
    let ghost pattern = steps@.map_values(|step: usize| step as int);
    assert(steps.len() == pattern.len());
    let mut rising: Vec<String> = Vec::new();
    let mut step: usize = root % 12;
    let mut degree: usize = 0;
    while degree <= SCALE_DEGREES
        invariant
            degree <= 8,
            rising.len() == degree,
            steps.len() == 7,
            pattern == steps@.map_values(|step: usize| step as int),
            pattern == mode.intervals(),
            step == degree_step(root as int, mode, degree as nat),
            forall|d: int|
                0 <= d < degree ==> (#[trigger] rising[d])@ == spelled(root as int, mode, d as nat),
        decreases 8 - degree,
    {
        let usual = step_name(step as u8);
        proof {
            lemma_name_letters(step as int);
            if degree > 0 {
                lemma_spelled_letters(root as int, mode, (degree - 1) as nat);
            }
        }
        let mut name = usual;
        if degree > 0 {
            match step_alternate(step as u8) {
                Some(other) => {
                    if first_letter(usual) == first_letter(rising[degree - 1].as_str()) {
                        name = other;
                    }
                },
                None => {},
            }
        }
        rising.push(String::from_str(name));
        let width = steps[degree % SCALE_DEGREES];
        proof {
            assert(width == pattern[(degree % 7) as int]);
            assert(1 <= width <= 2);
            assert(climbed(mode, (degree + 1) as nat) == climbed(mode, degree as nat)
                + mode.intervals()[(degree as int) % 7]);
        }
        step = (step + width) % 12;
        degree += 1;
    }
    let mut names: Vec<String> = Vec::new();
    let mut column: usize = 0;
    while column < SCALE_LENGTH
        invariant
            column <= 15,
            rising.len() == 8,
            names.len() == column,
            forall|d: int|
                0 <= d < 8 ==> (#[trigger] rising[d])@ == spelled(root as int, mode, d as nat),
            forall|c: int|
                0 <= c < column ==> (#[trigger] names[c])@ == scale_row(root as int, mode)[c],
        decreases 15 - column,
    {
        let degree = if column <= SCALE_DEGREES {
            column
        } else {
            SCALE_LENGTH - 1 - column
        };
        names.push(rising[degree].clone());
        column += 1;
    }
    assert(name_views(names@) =~= scale_row(root as int, mode));
    names
}

/// The table of the scales on the given roots in `mode`, one row per root
/// in the order given.
pub fn tabulate_scales(roots: &Vec<usize>, mode: Mode) -> (table: ScaleTable)
    requires
        roots.len() <= TABLE_SIDE_LIMIT,
    ensures
        table@ == scale_table(roots@, mode),
        table@.len() == roots.len(),
{
    let mut table = ScaleTable::blank(roots.len(), SCALE_LENGTH);
    let mut row: usize = 0;
    while row < roots.len()
        invariant
            row <= roots.len(),
            table@.len() == roots.len(),
            forall|r: int| 0 <= r < roots.len() ==> (#[trigger] table@[r]).len() == 15,
            forall|r: int|
                0 <= r < row ==> #[trigger] table@[r] == scale_row(roots[r] as int, mode),
        decreases roots.len() - row,
    {
        let names = spell_scale(roots[row], mode);
        let ghost wanted = scale_row(roots[row as int] as int, mode);
        let mut column: usize = 0;
        while column < SCALE_LENGTH
            invariant
                column <= 15,
                row < roots.len(),
                names.len() == 15,
                name_views(names@) == wanted,
                wanted == scale_row(roots[row as int] as int, mode),
                table@.len() == roots.len(),
                forall|r: int| 0 <= r < roots.len() ==> (#[trigger] table@[r]).len() == 15,
                forall|r: int|
                    0 <= r < row ==> #[trigger] table@[r] == scale_row(roots[r] as int, mode),
                forall|c: int| 0 <= c < column ==> (#[trigger] table@[row as int][c]) == wanted[c],
            decreases 15 - column,
        {
            let ghost before = table@;
            assert(name_views(names@)[column as int] == names[column as int]@);
            table.put(row, column, names[column].clone());
            assert forall|r: int| 0 <= r < row implies #[trigger] table@[r] == scale_row(
                roots[r] as int,
                mode,
            ) by {
                assert(table@[r] == before[r]);
            }
            column += 1;
        }
        assert(table@[row as int] =~= wanted);
        row += 1;
    }
    assert(table@ =~= scale_table(roots@, mode));
    table
}

/// The table of the twelve scales of `mode`, the roots in a random order:
/// each chromatic step is the root of exactly one row.
pub fn generate_scales(mode: Mode) -> (table: ScaleTable)
    ensures
        exists|roots: Seq<usize>|
            roots.to_multiset() == chromatic_roots().to_multiset() && table@ == scale_table(
                roots,
                mode,
            ),
        table@.len() == 12,
{
    let mut roots: Vec<usize> = Vec::new();
    let mut step: usize = 0;
    while step < 12
        invariant
            step <= 12,
            roots.len() == step,
            forall|s: int| 0 <= s < step ==> roots[s] == s,
        decreases 12 - step,
    {
        roots.push(step);
        step += 1;
    }
    assert(roots@ =~= chromatic_roots());
    shuffle(&mut roots);
    proof {
        roots@.to_multiset_ensures();
        chromatic_roots().to_multiset_ensures();
    }
    tabulate_scales(&roots, mode)
}

} // verus!
