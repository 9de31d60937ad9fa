//! Note-name, octave and pitch-class arithmetic over the twelve chromatic
//! steps.

use vstd::prelude::*;
use vstd::string::*;

verus! {

/// Quiet time, in milliseconds, that must follow the last key change before
/// the held notes are judged.
pub const DEBOUNCE_MILLIS: u64 = 100;

/// Raw note number of the C that opens octave 0.
pub const MIDI_START_INDEX: u8 = 24;

/// Number of chromatic steps in an octave.
pub const STEPS_PER_OCTAVE: u8 = 12;

/// The chromatic step, `0` (C) to `11` (B), that a note number falls on.
/// Defined for notes below zero as well, which an octave shift can produce.
pub open spec fn pitch_class(note: int) -> int {
    note % 12
}

/// The octave a note number lies in, counted from `MIDI_START_INDEX`; notes
/// below that index lie in no numbered octave.
pub open spec fn octave_of(note: int) -> Option<u8> {
    if 24 <= note <= 255 {
        Some(((note - 24) / 12) as u8)
    } else {
        None
    }
}

/// The usual name of a chromatic step.
pub open spec fn canonical_name(class: int) -> Seq<char> {
    if class == 0 {
        "C"@
    } else if class == 1 {
        "C#"@
    } else if class == 2 {
        "D"@
    } else if class == 3 {
        "D#"@
    } else if class == 4 {
        "E"@
    } else if class == 5 {
        "F"@
    } else if class == 6 {
        "F#"@
    } else if class == 7 {
        "G"@
    } else if class == 8 {
        "G#"@
    } else if class == 9 {
        "A"@
    } else if class == 10 {
        "A#"@
    } else {
        "B"@
    }
}

/// The enharmonic second name of a chromatic step, where it has one.
pub open spec fn alternate_name(class: int) -> Option<Seq<char>> {
    if class == 1 {
        Some("Db"@)
    } else if class == 3 {
        Some("Eb"@)
    } else if class == 6 {
        Some("Gb"@)
    } else if class == 8 {
        Some("Ab"@)
    } else if class == 10 {
        Some("Bb"@)
    } else {
        None
    }
}

/// Whether `name` is one of the names of the chromatic step `class`.
pub open spec fn names_step(class: int, name: Seq<char>) -> bool {
    name == canonical_name(class) || alternate_name(class) == Some(name)
}

/// The chromatic step of a raw note number.
pub fn step_of(key_index: u8) -> (class: u8)
    ensures
        class as int == pitch_class(key_index as int),
        class < 12,
{
    key_index % STEPS_PER_OCTAVE
}

/// The usual name of the chromatic step `class`.
pub fn step_name(class: u8) -> (name: &'static str)
    requires
        class < 12,
    ensures
        name@ == canonical_name(class as int),
{
    match class {
        0 => "C",
        1 => "C#",
        2 => "D",
        3 => "D#",
        4 => "E",
        5 => "F",
        6 => "F#",
        7 => "G",
        8 => "G#",
        9 => "A",
        10 => "A#",
        _ => "B",
    }
}

/// The enharmonic second name of the chromatic step `class`, if it has one.
pub fn step_alternate(class: u8) -> (name: Option<&'static str>)
    requires
        class < 12,
    ensures
        match name {
            Some(n) => alternate_name(class as int) == Some(n@),
            None => alternate_name(class as int) is None,
        },
{
    match class {
        1 => Some("Db"),
        3 => Some("Eb"),
        6 => Some("Gb"),
        8 => Some("Ab"),
        10 => Some("Bb"),
        _ => None,
    }
}

/// The octave of a raw note number, or `None` for a note below
/// `MIDI_START_INDEX`.
pub fn get_octave(key_index: u8) -> (octave: Option<u8>)
    ensures
        octave == octave_of(key_index as int),
{
    if key_index >= MIDI_START_INDEX {
        Some((key_index - MIDI_START_INDEX) / STEPS_PER_OCTAVE)
    } else {
        None
    }
}

/// The usual name of the chromatic step that a raw note number falls on.
pub fn get_note_name(key_index: u8) -> (name: String)
    ensures
        name@ == canonical_name(pitch_class(key_index as int)),
{
    String::from_str(step_name(step_of(key_index)))
}

/// Whether `note` names the chromatic step that a raw note number falls on,
/// by its usual name or by its enharmonic one.
pub fn note_matches(key_index: u8, note: &str) -> (matched: bool)
    ensures
        matched == names_step(pitch_class(key_index as int), note@),
{
    let class = step_of(key_index);
    let wanted = String::from_str(note);
    if String::from_str(step_name(class)) == wanted {
        return true;
    }
    match step_alternate(class) {
        Some(other) => String::from_str(other) == wanted,
        None => false,
    }
}

} // verus!
