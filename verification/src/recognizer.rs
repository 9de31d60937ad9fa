//! Chord recognition: from the notes held down to the chord they spell.
//!
//! The held notes are put in ascending order and tried as a root-position
//! chord. Each further guess takes the highest note of the working set down
//! an octave and puts it in front, so that the k-th guess reads the notes as
//! the k-th inversion.

use vstd::prelude::*;
use vstd::relations::*;
use vstd::seq_lib::*;
use vstd::string::*;
use crate::chord::{Chord, ChordType, ChordView};
use crate::pitch::{canonical_name, octave_of, pitch_class, step_name};

verus! {

/// The order in which held notes are arranged: by note number.
pub open spec fn note_order() -> spec_fn(u8, u8) -> bool {
    |a: u8, b: u8| a <= b
}

/// The held notes in ascending order.
pub open spec fn ascending(held: Seq<u8>) -> Seq<u8> {
    held.sort_by(note_order())
}

/// Note numbers as mathematical integers.
pub open spec fn as_ints(notes: Seq<u8>) -> Seq<int> {
    notes.map_values(|n: u8| n as int)
}

/// One step of the inversion search: the last note of the working set goes
/// down an octave and to the front.
pub open spec fn rotate_once(working: Seq<int>) -> Seq<int> {
    if working.len() == 0 {
        working
    } else {
        seq![working.last() - 12] + working.drop_last()
    }
}

/// The working set of the `k`-th inversion guess.
pub open spec fn rotation(sorted: Seq<int>, k: nat) -> Seq<int>
    decreases k,
{
    if k == 0 {
        sorted
    } else {
        rotate_once(rotation(sorted, (k - 1) as nat))
    }
}

/// The offsets of a working set's notes from its first note.
pub open spec fn offsets(working: Seq<int>) -> Seq<int> {
    working.map_values(|n: int| n - working[0])
}

/// The chord type whose signature is exactly `positions`, if there is one.
pub open spec fn classify_spec(positions: Seq<int>) -> Option<ChordType> {
    if exists|t: ChordType| t.signature() == positions {
        Some(choose|t: ChordType| t.signature() == positions)
    } else {
        None
    }
}

/// The chord type that the `k`-th inversion guess finds, if any.
pub open spec fn guess_at(sorted: Seq<int>, k: nat) -> Option<ChordType> {
    classify_spec(offsets(rotation(sorted, k)))
}

/// The first inversion guess, from `from` on, that finds a chord type.
pub open spec fn first_guess(sorted: Seq<int>, from: nat) -> Option<nat>
    decreases sorted.len() - from,
{
    if from >= sorted.len() {
        None
    } else if guess_at(sorted, from) is Some {
        Some(from)
    } else {
        first_guess(sorted, from + 1)
    }
}

/// The chord that the `k`-th inversion guess names, given that it finds a
/// type: root and octave are those of the working set's first note.
pub open spec fn chord_at(sorted: Seq<int>, k: nat) -> ChordView {
    let bass = rotation(sorted, k)[0];
    ChordView {
        root: canonical_name(pitch_class(bass)),
        chord_type: guess_at(sorted, k).unwrap(),
        inversion: k,
        octave: octave_of(bass),
    }
}

/// The chord that a set of held notes spells, or `None` where no inversion
/// guess matches a signature.
pub open spec fn identify_spec(held: Seq<u8>) -> Option<ChordView> {
    let sorted = as_ints(ascending(held));
    match first_guess(sorted, 0) {
        Some(k) => Some(chord_at(sorted, k)),
        None => None,
    }
}

/// `classify_spec` finds a type exactly for that type's signature.
pub proof fn lemma_classify(positions: Seq<int>, t: ChordType)
    ensures
        classify_spec(positions) == Some(t) <==> t.signature() == positions,
{
    if exists|u: ChordType| u.signature() == positions {
        let u = choose|u: ChordType| u.signature() == positions;
        ChordType::lemma_signatures(u, t);
    }
}

/// The note order is a total order.
pub proof fn lemma_note_order_total()
    ensures
        total_ordering(note_order()),
{
}

/// The held notes in ascending order, as a new vector.
pub fn sorted_notes(held: &Vec<u8>) -> (sorted: Vec<u8>)
    ensures
        sorted@ == ascending(held@),
        sorted.len() == held.len(),
{
    let mut sorted: Vec<u8> = Vec::new();
    let mut i: usize = 0;
    proof {
        assert(held@.subrange(0, 0) =~= Seq::<u8>::empty());
    }
    while i < held.len()
        invariant
            i <= held.len(),
            sorted_by(sorted@, note_order()),
            sorted@.to_multiset() == held@.subrange(0, i as int).to_multiset(),
        decreases held.len() - i,
    {
        let note = held[i];
        let mut at: usize = 0;
        while at < sorted.len() && sorted[at] <= note
            invariant
                at <= sorted.len(),
                forall|j: int| 0 <= j < at ==> sorted@[j] <= note,
            decreases sorted.len() - at,
        {
            at += 1;
        }
        let ghost before = sorted@;
        sorted.insert(at, note);
        proof {
            broadcast use group_to_multiset_ensures;
            assert(sorted@ == before.insert(at as int, note));
            assert forall|a: int, b: int| 0 <= a < b < sorted@.len() implies (note_order())(
                sorted@[a],
                sorted@[b],
            ) by {
                if a < at && b > at {
                    assert((note_order())(before[a], before[b - 1]));
                } else if a < at && b < at {
                    assert((note_order())(before[a], before[b]));
                } else if a > at {
                    assert((note_order())(before[a - 1], before[b - 1]));
                } else if a == at {
                    if at < before.len() {
                        assert((note_order())(before[at as int], before[b - 1]));
                    }
                }
            }
            assert(held@.subrange(0, i + 1) =~= held@.subrange(0, i as int).push(note));
        }
        i += 1;
    }
    proof {
        assert(held@.subrange(0, held.len() as int) =~= held@);
        lemma_note_order_total();
        held@.lemma_sort_by_ensures(note_order());
        lemma_sorted_unique(sorted@, ascending(held@), note_order());
        sorted@.to_multiset_ensures();
        held@.to_multiset_ensures();
    }
    sorted
}

/// Whether the working offsets are exactly the entries of a signature.
fn same_offsets(positions: &Vec<i16>, signature: &Vec<u8>) -> (same: bool)
    ensures
        same == (positions@.map_values(|p: i16| p as int) == signature@.map_values(
            |x: u8| x as int,
        )),
{
    let ghost left = positions@.map_values(|p: i16| p as int);
    let ghost right = signature@.map_values(|x: u8| x as int);
    if positions.len() != signature.len() {
        assert(left.len() != right.len());
        return false;
    }
    let mut i: usize = 0;
    while i < positions.len()
        invariant
            i <= positions.len(),
            positions.len() == signature.len(),
            left == positions@.map_values(|p: i16| p as int),
            right == signature@.map_values(|x: u8| x as int),
            forall|j: int| 0 <= j < i ==> left[j] == right[j],
        decreases positions.len() - i,
    {
        if positions[i] != signature[i] as i16 {
            assert(left[i as int] != right[i as int]);
            return false;
        }
        i += 1;
    }
    assert(left =~= right);
    true
}

/// Looks a sequence of offsets up in the signature table.
pub fn classify(positions: &Vec<i16>) -> (found: Option<ChordType>)
    ensures
        found == classify_spec(positions@.map_values(|p: i16| p as int)),
{
    let ghost wanted = positions@.map_values(|p: i16| p as int);
    let types = ChordType::all();
    let mut i: usize = 0;
    while i < types.len()
        invariant
            i <= types.len(),
            types@ == ChordType::table(),
            wanted == positions@.map_values(|p: i16| p as int),
            forall|j: int| 0 <= j < i ==> ChordType::table()[j].signature() != wanted,
        decreases types.len() - i,
    {
        let candidate = types[i];
        let signature = candidate.intervals();
        if same_offsets(positions, &signature) {
            proof {
                lemma_classify(wanted, candidate);
            }
            return Some(candidate);
        }
        i += 1;
    }
    proof {
        assert forall|t: ChordType| t.signature() != wanted by {
            t.lemma_table_complete();
        }
    }
    None
}

/// The offsets of a working set's notes from its first note.
fn offsets_of(working: &Vec<i16>) -> (positions: Vec<i16>)
    requires
        forall|i: int| 0 <= i < working.len() ==> -12 <= #[trigger] working[i] <= 255,
    ensures
        positions@.map_values(|p: i16| p as int) == offsets(
            working@.map_values(|n: i16| n as int),
        ),
{
    let mut positions: Vec<i16> = Vec::new();
    let mut i: usize = 0;
    while i < working.len()
        invariant
            i <= working.len(),
            positions.len() == i,
            forall|j: int| 0 <= j < working.len() ==> -12 <= #[trigger] working[j] <= 255,
            forall|j: int| 0 <= j < i ==> positions[j] == working[j] - working[0],
        decreases working.len() - i,
    {
        positions.push(working[i] - working[0]);
        i += 1;
    }
    assert(positions@.map_values(|p: i16| p as int) =~= offsets(
        working@.map_values(|n: i16| n as int),
    ));
    positions
}

/// Names the chord that the held notes spell.
///
/// The notes may come in any order. The result is `None` when no inversion
/// guess matches a signature exactly; fewer than three notes never match.
/// Root and octave are those of the lowest note of the matching guess, which
/// may lie up to an octave below the lowest note held; below
/// `MIDI_START_INDEX` it has no octave.
pub fn identify_chord(held: &Vec<u8>) -> (found: Option<Chord>)
    ensures
        match found {
            Some(chord) => identify_spec(held@) == Some(chord@),
            None => identify_spec(held@) is None,
        },
        held.len() < 3 ==> found is None,
{
    let sorted = sorted_notes(held);
    let ghost base = as_ints(sorted@);
    let count = sorted.len();
    let mut working: Vec<i16> = Vec::new();
    let mut i: usize = 0;
    while i < count
        invariant
            i <= count,
            count == sorted.len(),
            working.len() == i,
            forall|j: int| 0 <= j < i ==> working[j] == sorted[j],
        decreases count - i,
    {
        working.push(sorted[i] as i16);
        i += 1;
    }
    assert(working@.map_values(|n: i16| n as int) =~= base);
    let mut inversion: usize = 0;
    while inversion < count
        invariant
            inversion <= count,
            count == base.len(),
            count == held.len(),
            working.len() == count,
            base == as_ints(ascending(held@)),
            working@.map_values(|n: i16| n as int) == rotation(base, inversion as nat),
            forall|j: int| 0 <= j < inversion ==> -12 <= #[trigger] working[j] <= 243,
            forall|j: int| inversion <= j < count ==> 0 <= #[trigger] working[j] <= 255,
            first_guess(base, 0) == first_guess(base, inversion as nat),
        decreases count - inversion,
    {
        let positions = offsets_of(&working);
        let ghost current = working@.map_values(|n: i16| n as int);
        match classify(&positions) {
            Some(chord_type) => {
                let bass = working[0];
                assert(current[0] == bass);
                let step = ((bass + 12) as u16 % 12) as u8;
                let root = String::from_str(step_name(step));
                let octave = if bass >= 24 {
                    Some(((bass - 24) as u16 / 12) as u8)
                } else {
                    None
                };
                proof {
                    lemma_needs_three_notes(base, inversion as nat);
                }
                return Some(Chord { root, chord_type, inversion, octave });
            },
            None => {},
        }
        let top = working.pop().unwrap();
        working.insert(0, top - 12);
        proof {
            assert(working@.map_values(|n: i16| n as int) =~= rotate_once(current));
        }
        inversion += 1;
    }
    None
}

/// What `first_guess` finds is the least guess, from `from` on, that finds a
/// chord type; it finds nothing only where none of them does.
pub proof fn lemma_first_guess(sorted: Seq<int>, from: nat)
    ensures
        match first_guess(sorted, from) {
            Some(k) => {
                &&& from <= k < sorted.len()
                &&& guess_at(sorted, k) is Some
                &&& forall|j: nat| from <= j < k ==> guess_at(sorted, j) is None
            },
            None => forall|j: nat| from <= j < sorted.len() ==> guess_at(sorted, j) is None,
        },
    decreases sorted.len() - from,
{
    if from < sorted.len() && guess_at(sorted, from) is None {
        lemma_first_guess(sorted, from + 1);
    }
}

/// The arrangement holds the held notes, each as often as it is held, and
/// never steps down.
pub proof fn lemma_ascending(held: Seq<u8>)
    ensures
        ascending(held).to_multiset() == held.to_multiset(),
        ascending(held).len() == held.len(),
        forall|i: int, j: int|
            0 <= i < j < ascending(held).len() ==> ascending(held)[i] <= ascending(held)[j],
{
    lemma_note_order_total();
    held.lemma_sort_by_ensures(note_order());
    lemma_ascending_len(held);
    assert forall|i: int, j: int| 0 <= i < j < ascending(held).len() implies ascending(held)[i]
        <= ascending(held)[j] by {
        assert((note_order())(ascending(held)[i], ascending(held)[j]));
    }
}

/// Notes that are already in ascending order are their own arrangement.
pub proof fn lemma_ascending_fixes_sorted(notes: Seq<u8>)
    requires
        forall|i: int, j: int| 0 <= i < j < notes.len() ==> notes[i] <= notes[j],
    ensures
        ascending(notes) == notes,
{
    lemma_note_order_total();
    notes.lemma_sort_by_ensures(note_order());
    lemma_sorted_unique(ascending(notes), notes, note_order());
}

/// Recognition does not depend on the order in which the notes are given:
/// two arrangements of the same notes spell the same chord, or both none.
pub proof fn lemma_identify_ignores_order(first: Seq<u8>, second: Seq<u8>)
    requires
        first.to_multiset() == second.to_multiset(),
    ensures
        ascending(first) == ascending(second),
        identify_spec(first) == identify_spec(second),
{
    lemma_note_order_total();
    first.lemma_sort_by_ensures(note_order());
    second.lemma_sort_by_ensures(note_order());
    lemma_sorted_unique(ascending(first), ascending(second), note_order());
}

/// A chord is named exactly when some inversion guess has the offsets of a
/// signature, and then the least such guess decides: notes of which no guess
/// has exactly a signature's offsets spell nothing.
pub proof fn lemma_identify_exact(held: Seq<u8>)
    ensures
        identify_spec(held) is Some <==> exists|k: nat, t: ChordType|
            k < held.len() && offsets(rotation(as_ints(ascending(held)), k)) == t.signature(),
        identify_spec(held) matches Some(chord) ==> {
            &&& chord.inversion < held.len()
            &&& offsets(rotation(as_ints(ascending(held)), chord.inversion))
                == chord.chord_type.signature()
            &&& forall|j: nat, t: ChordType|
                j < chord.inversion ==> offsets(rotation(as_ints(ascending(held)), j))
                    != t.signature()
        },
{
    let sorted = as_ints(ascending(held));
    lemma_ascending_len(held);
    lemma_first_guess(sorted, 0);
    match first_guess(sorted, 0) {
        Some(k) => {
            let t = guess_at(sorted, k).unwrap();
            lemma_classify(offsets(rotation(sorted, k)), t);
            assert forall|j: nat, u: ChordType| j < k implies offsets(rotation(sorted, j))
                != u.signature() by {
                assert(guess_at(sorted, j) is None);
                lemma_classify(offsets(rotation(sorted, j)), u);
            }
        },
        None => {
            assert forall|k: nat, t: ChordType| k < held.len() implies offsets(
                rotation(sorted, k),
            ) != t.signature() by {
                assert(guess_at(sorted, k) is None);
                lemma_classify(offsets(rotation(sorted, k)), t);
            }
        },
    }
}

/// Fewer than three notes never spell a chord.
pub proof fn lemma_small_sets_spell_nothing(held: Seq<u8>)
    requires
        held.len() <= 2,
    ensures
        identify_spec(held) is None,
{
    let sorted = as_ints(ascending(held));
    lemma_ascending_len(held);
    lemma_first_guess(sorted, 0);
    if first_guess(sorted, 0) is Some {
        lemma_needs_three_notes(sorted, first_guess(sorted, 0).unwrap());
    }
}

/// Arranging the notes keeps their number.
pub proof fn lemma_ascending_len(held: Seq<u8>)
    ensures
        ascending(held).len() == held.len(),
        as_ints(ascending(held)).len() == held.len(),
{
    lemma_note_order_total();
    held.lemma_sort_by_ensures(note_order());
    held.to_multiset_ensures();
    ascending(held).to_multiset_ensures();
}

/// A guess can only find a chord type among three notes or more.
pub proof fn lemma_needs_three_notes(sorted: Seq<int>, k: nat)
    requires
        guess_at(sorted, k) is Some,
    ensures
        sorted.len() >= 3,
{
    lemma_rotation_len(sorted, k);
    let found = guess_at(sorted, k).unwrap();
    lemma_classify(offsets(rotation(sorted, k)), found);
    ChordType::lemma_signatures(found, found);
}

/// The working set of the `k`-th guess is the ascending notes with the `k`
/// highest an octave down and in front, the rest behind them, each part in
/// its ascending order.
pub proof fn lemma_rotation_moves_top_notes(sorted: Seq<int>, k: nat)
    requires
        k <= sorted.len(),
    ensures
        rotation(sorted, k) == sorted.subrange(sorted.len() - k, sorted.len() as int).map_values(
            |n: int| n - 12,
        ) + sorted.subrange(0, sorted.len() - k),
    decreases k,
{
    let count = sorted.len() as int;
    let moved = sorted.subrange(count - k, count).map_values(|n: int| n - 12) + sorted.subrange(
        0,
        count - k,
    );
    if k == 0 {
        assert(moved =~= sorted);
    } else {
        lemma_rotation_moves_top_notes(sorted, (k - 1) as nat);
        let before = sorted.subrange(count - k + 1, count).map_values(|n: int| n - 12)
            + sorted.subrange(0, count - k + 1);
        assert(before.last() == sorted[count - k]);
        assert(rotate_once(before) =~= moved);
    }
}

/// Rotating keeps the number of notes.
pub proof fn lemma_rotation_len(sorted: Seq<int>, k: nat)
    ensures
        rotation(sorted, k).len() == sorted.len(),
    decreases k,
{
    if k > 0 {
        lemma_rotation_len(sorted, (k - 1) as nat);
    }
}

} // verus!
