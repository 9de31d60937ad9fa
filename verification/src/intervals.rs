//! The interval drill: thirteen interval widths in random order, the two
//! pitches that sound each of them, and the hint that a guess earns.

use vstd::prelude::*;
use vstd::string::*;
use crate::chance::{pick_below, shuffle};
use crate::pitch::{canonical_name, step_name};

verus! {

/// The octave in which the lower pitch of every interval sounds.
pub const REFERENCE_OCTAVE: usize = 3;

/// The widest interval of the drill, in semitones: the octave.
pub const WIDEST_INTERVAL: usize = 12;

/// The menu entry of an interval width.
pub open spec fn interval_label(width: int) -> Seq<char> {
    if width == 0 {
        "0) Unison"@
    } else if width == 1 {
        "1) Minor Second"@
    } else if width == 2 {
        "2) Major Second"@
    } else if width == 3 {
        "3) Minor Third"@
    } else if width == 4 {
        "4) Major Third"@
    } else if width == 5 {
        "5) Perfect Fourth"@
    } else if width == 6 {
        "6) Tritone"@
    } else if width == 7 {
        "7) Perfect Fifth"@
    } else if width == 8 {
        "8) Minor Sixth"@
    } else if width == 9 {
        "9) Major Sixth"@
    } else if width == 10 {
        "10) Minor Seventh"@
    } else if width == 11 {
        "11) Major Seventh"@
    } else {
        "12) Perfect Octave"@
    }
}

/// The menu entry of an interval width, or `None` for a width beyond the
/// octave.
pub fn interval_name(width: usize) -> (name: Option<&'static str>)
    ensures
        match name {
            Some(text) => width <= 12 && text@ == interval_label(width as int),
            None => width > 12,
        },
{
    match width {
        0 => Some("0) Unison"),
        1 => Some("1) Minor Second"),
        2 => Some("2) Major Second"),
        3 => Some("3) Minor Third"),
        4 => Some("4) Major Third"),
        5 => Some("5) Perfect Fourth"),
        6 => Some("6) Tritone"),
        7 => Some("7) Perfect Fifth"),
        8 => Some("8) Minor Sixth"),
        9 => Some("9) Major Sixth"),
        10 => Some("10) Minor Seventh"),
        11 => Some("11) Major Seventh"),
        12 => Some("12) Perfect Octave"),
        _ => None,
    }
}

/// A note letter with its accidental, as a pitch is named to a synthesizer.
#[derive(Debug, Copy, Clone, PartialEq, Eq, Structural)]
pub enum Letter {
    C,
    Csh,
    Db,
    D,
    Dsh,
    Eb,
    E,
    F,
    Fsh,
    Gb,
    G,
    Gsh,
    Ab,
    A,
    Ash,
    Bb,
    B,
}

/// The letter that a note name stands for; a name that is no note name
/// stands for C.
pub open spec fn letter_of(name: Seq<char>) -> Letter {
    if name == "Ab"@ {
        Letter::Ab
    } else if name == "A"@ {
        Letter::A
    } else if name == "A#"@ {
        Letter::Ash
    } else if name == "Bb"@ {
        Letter::Bb
    } else if name == "B"@ {
        Letter::B
    } else if name == "C"@ {
        Letter::C
    } else if name == "C#"@ {
        Letter::Csh
    } else if name == "Db"@ {
        Letter::Db
    } else if name == "D"@ {
        Letter::D
    } else if name == "D#"@ {
        Letter::Dsh
    } else if name == "Eb"@ {
        Letter::Eb
    } else if name == "E"@ {
        Letter::E
    } else if name == "F"@ {
        Letter::F
    } else if name == "F#"@ {
        Letter::Fsh
    } else if name == "Gb"@ {
        Letter::Gb
    } else if name == "G"@ {
        Letter::G
    } else if name == "G#"@ {
        Letter::Gsh
    } else {
        Letter::C
    }
}

/// Whether `note` is the name `name`.
fn is_name(note: &String, name: &str) -> (same: bool)
    ensures
        same == (note@ == name@),
{
    *note == String::from_str(name)
}

/// The letter that a note name stands for; a name that is no note name
/// stands for C.
pub fn get_letter(note: &str) -> (letter: Letter)
    ensures
        letter == letter_of(note@),
{
    let wanted = String::from_str(note);
    if is_name(&wanted, "Ab") {
        Letter::Ab
    } else if is_name(&wanted, "A") {
        Letter::A
    } else if is_name(&wanted, "A#") {
        Letter::Ash
    } else if is_name(&wanted, "Bb") {
        Letter::Bb
    } else if is_name(&wanted, "B") {
        Letter::B
    } else if is_name(&wanted, "C") {
        Letter::C
    } else if is_name(&wanted, "C#") {
        Letter::Csh
    } else if is_name(&wanted, "Db") {
        Letter::Db
    } else if is_name(&wanted, "D") {
        Letter::D
    } else if is_name(&wanted, "D#") {
        Letter::Dsh
    } else if is_name(&wanted, "Eb") {
        Letter::Eb
    } else if is_name(&wanted, "E") {
        Letter::E
    } else if is_name(&wanted, "F") {
        Letter::F
    } else if is_name(&wanted, "F#") {
        Letter::Fsh
    } else if is_name(&wanted, "Gb") {
        Letter::Gb
    } else if is_name(&wanted, "G") {
        Letter::G
    } else if is_name(&wanted, "G#") {
        Letter::Gsh
    } else {
        Letter::C
    }
}

/// A pitch to be sounded: the usual name of its chromatic step and its
/// octave.
#[derive(Debug)]
pub struct Pitch {
    pub name: String,
    pub octave: usize,
}

/// The chromatic step of the upper pitch of an interval.
pub open spec fn upper_step(root: int, width: int) -> int {
    (root + width) % 12
}

/// The octave of the upper pitch of an interval: the reference octave, or
/// as many octaves above it as the interval carries past B.
pub open spec fn upper_octave(root: int, width: int) -> int {
    3 + (root + width) / 12
}

/// The two pitches that sound an interval: the root step in the reference
/// octave, and the pitch `width` semitones above it.
pub fn interval_pitches(root_index: usize, width: usize) -> (pitches: (Pitch, Pitch))
    requires
        root_index < 12,
        root_index + width <= usize::MAX,
    ensures
        pitches.0.name@ == canonical_name(root_index as int),
        pitches.0.octave == REFERENCE_OCTAVE,
        pitches.1.name@ == canonical_name(upper_step(root_index as int, width as int)),
        pitches.1.octave == upper_octave(root_index as int, width as int),
{
    let reached = root_index + width;
    let lower = Pitch { name: String::from_str(step_name(root_index as u8)), octave: REFERENCE_OCTAVE };
    let upper = Pitch {
        name: String::from_str(step_name((reached % 12) as u8)),
        octave: REFERENCE_OCTAVE + reached / 12,
    };
    (lower, upper)
}

/// The root of a question: C, or any chromatic step where random roots were
/// asked for.
pub fn pick_root(random_root: bool) -> (root_index: usize)
    ensures
        root_index < 12,
        !random_root ==> root_index == 0,
{
    if random_root {
        pick_below(12)
    } else {
        0
    }
}

/// What a guess earns.
#[derive(Debug, Copy, Clone, PartialEq, Eq, Structural)]
pub enum Hint {
    /// There was no interval to guess.
    Nothing,
    /// The guess is the interval; the drill has moved on.
    Correct,
    /// The interval is narrower than the guess.
    LessThanThat,
    /// The interval is wider than the guess.
    MoreThanThat,
}

/// The hint for a guess at the front of the queue.
pub open spec fn hinted(queue: Seq<usize>, guess: usize) -> Hint {
    if queue.len() == 0 {
        Hint::Nothing
    } else if guess == queue[0] {
        Hint::Correct
    } else if guess > queue[0] {
        Hint::LessThanThat
    } else {
        Hint::MoreThanThat
    }
}

/// The queue after a guess: a correct one takes the front interval off, any
/// other leaves the queue as it is.
pub open spec fn widths_after(queue: Seq<usize>, guess: usize) -> Seq<usize> {
    if hinted(queue, guess) == Hint::Correct {
        queue.drop_first()
    } else {
        queue
    }
}

/// The queue after a run of guesses, one after the other.
pub open spec fn widths_after_all(queue: Seq<usize>, guesses: Seq<usize>) -> Seq<usize>
    decreases guesses.len(),
{
    if guesses.len() == 0 {
        queue
    } else {
        widths_after_all(widths_after(queue, guesses[0]), guesses.drop_first())
    }
}

/// How many guesses of a run are correct.
pub open spec fn correct_guesses(queue: Seq<usize>, guesses: Seq<usize>) -> nat
    decreases guesses.len(),
{
    if guesses.len() == 0 {
        0
    } else {
        (if hinted(queue, guesses[0]) == Hint::Correct {
            1nat
        } else {
            0nat
        }) + correct_guesses(widths_after(queue, guesses[0]), guesses.drop_first())
    }
}

/// Every interval width of the drill, from unison to the octave.
pub open spec fn all_widths() -> Seq<usize> {
    Seq::new(13, |width: int| width as usize)
}

/// Every interval width of the drill, ascending.
pub fn interval_list() -> (widths: Vec<usize>)
    ensures
        widths@ == all_widths(),
{
    let mut widths: Vec<usize> = Vec::new();
    let mut width: usize = 0;
    while width <= WIDEST_INTERVAL
        invariant
            width <= 13,
            widths.len() == width,
            forall|w: int| 0 <= w < width ==> widths[w] == w,
        decreases 13 - width,
    {
        widths.push(width);
        width += 1;
    }
    assert(widths@ =~= all_widths());
    widths
}

/// Every interval width of the drill, each once, in a random order.
pub fn generate_interval_list() -> (widths: Vec<usize>)
    ensures
        widths@.to_multiset() == all_widths().to_multiset(),
        widths.len() == 13,
{
    let mut widths = interval_list();
    shuffle(&mut widths);
    proof {
        widths@.to_multiset_ensures();
        all_widths().to_multiset_ensures();
    }
    widths
}

/// An interval drill in progress: the widths still to be guessed, front
/// first.
pub struct IntervalDrill {
    queue: Vec<usize>,
}

impl View for IntervalDrill {
    type V = Seq<usize>;

    closed spec fn view(&self) -> Seq<usize> {
        self.queue@
    }
}

impl IntervalDrill {
    /// A fresh drill on all thirteen widths in a random order.
    pub fn new() -> (drill: IntervalDrill)
        ensures
            drill@.to_multiset() == all_widths().to_multiset(),
            drill@.len() == 13,
    {
        IntervalDrill { queue: generate_interval_list() }
    }

    /// A drill on the given widths, front first.
    pub fn from_widths(queue: Vec<usize>) -> (drill: IntervalDrill)
        ensures
            drill@ == queue@,
    {
        IntervalDrill { queue }
    }

    /// How many intervals are still to be guessed.
    pub fn remaining(&self) -> (count: usize)
        ensures
            count == self@.len(),
    {
        self.queue.len()
    }

    /// Whether every interval has been guessed.
    pub fn is_complete(&self) -> (done: bool)
        ensures
            done == (self@.len() == 0),
    {
        self.queue.len() == 0
    }

    /// The interval to guess next, if any is left.
    pub fn current(&self) -> (front: Option<usize>)
        ensures
            front == (if self@.len() > 0 {
                Some(self@[0])
            } else {
                None
            }),
    {
        if self.queue.len() > 0 {
            Some(self.queue[0])
        } else {
            None
        }
    }

    /// Takes a guess at the front interval. A correct guess takes it off
    /// the queue; a wrong one leaves the queue as it is and says on which
    /// side the interval lies.
    pub fn guess(&mut self, chosen: usize) -> (hint: Hint)
        ensures
            hint == hinted(old(self)@, chosen),
            final(self)@ == widths_after(old(self)@, chosen),
    {
        if self.queue.len() == 0 {
            return Hint::Nothing;
        }
        let width = self.queue[0];
        if chosen == width {
            self.queue.remove(0);
            assert(self.queue@ =~= old(self)@.drop_first());
            Hint::Correct
        } else if chosen > width {
            Hint::LessThanThat
        } else {
            Hint::MoreThanThat
        }
    }
}

/// A run of guesses shortens the queue by exactly the number of correct
/// ones, however many wrong guesses came in between. So a drill of N
/// intervals is finished after exactly N correct guesses.
pub proof fn lemma_widths_exhaustion(queue: Seq<usize>, guesses: Seq<usize>)
    ensures
        correct_guesses(queue, guesses) <= queue.len(),
        widths_after_all(queue, guesses) == queue.skip(correct_guesses(queue, guesses) as int),
        widths_after_all(queue, guesses).len() == 0 <==> correct_guesses(queue, guesses)
            == queue.len(),
    decreases guesses.len(),
{
    if guesses.len() == 0 {
        assert(queue.skip(0) =~= queue);
    } else {
        let next = widths_after(queue, guesses[0]);
        lemma_widths_exhaustion(next, guesses.drop_first());
        let later = correct_guesses(next, guesses.drop_first());
        if hinted(queue, guesses[0]) == Hint::Correct {
            assert(queue.drop_first().skip(later as int) =~= queue.skip(later as int + 1));
        }
    }
}

} // verus!
