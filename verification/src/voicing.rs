//! Chords as they are played, and what the recognizer makes of them.
//!
//! A chord type on a root note, in a given inversion, is a definite set of
//! notes. The recognizer names such a set by its own root, type and
//! inversion, except where an inversion of one chord has the very notes of
//! a lower inversion of another.

use vstd::prelude::*;
use crate::chord::{ChordType, ChordView};
use crate::pitch::{canonical_name, octave_of, pitch_class};
use crate::recognizer::{
    as_ints, ascending, chord_at, classify_spec, first_guess, guess_at, identify_spec,
    lemma_ascending_fixes_sorted, lemma_classify, lemma_first_guess,
    lemma_identify_ignores_order, offsets, rotate_once, rotation,
};

verus! {

/// The notes of chord type `t` on the root note `root` in inversion `j`,
/// ascending: the lowest `j` chord members are played an octave up.
pub open spec fn voicing(root: int, t: ChordType, j: nat) -> Seq<int> {
    let signature = t.signature();
    let count = signature.len() as int;
    Seq::new(
        signature.len(),
        |i: int|
            if i + j < count {
                root + signature[i + j]
            } else {
                root + signature[i + j - count] + 12
            },
    )
}

/// The chord type whose root position has the very offsets of inversion `i`
/// of chord type `t`, where there is one.
pub open spec fn reads_as(t: ChordType, i: nat) -> Option<ChordType> {
    if i == 0 {
        Some(t)
    } else {
        match t {
            ChordType::Augmented => if i <= 2 {
                Some(ChordType::Augmented)
            } else {
                None
            },
            ChordType::MinorSeventh => if i == 1 {
                Some(ChordType::SusSix)
            } else {
                None
            },
            ChordType::SusSix => if i == 3 {
                Some(ChordType::MinorSeventh)
            } else {
                None
            },
            ChordType::SusTwo => if i == 2 {
                Some(ChordType::SusFour)
            } else {
                None
            },
            ChordType::SusFour => if i == 1 {
                Some(ChordType::SusTwo)
            } else {
                None
            },
            _ => None,
        }
    }
}

/// Whether inversion `j` of chord type `t` is taken for another chord: some
/// inversion guess before the `j`-th already finds a signature.
pub open spec fn ambiguous(t: ChordType, j: nat) -> bool {
    match t {
        ChordType::Augmented => j >= 1,
        ChordType::MinorSeventh => j >= 1,
        ChordType::SusFour => j >= 1,
        ChordType::SusTwo => j >= 2,
        ChordType::SusSix => j >= 3,
        _ => false,
    }
}

/// The chord that the notes of `voicing(root, t, j)` are meant to spell.
pub open spec fn intended(root: int, t: ChordType, j: nat) -> ChordView {
    ChordView {
        root: canonical_name(pitch_class(root)),
        chord_type: t,
        inversion: j,
        octave: octave_of(root),
    }
}

/// One step of the inversion search takes inversion `j` to inversion
/// `j - 1` of the same chord.
pub proof fn lemma_rotate_voicing(root: int, t: ChordType, j: nat)
    requires
        1 <= j < t.signature().len(),
    ensures
        rotate_once(voicing(root, t, j)) == voicing(root, t, (j - 1) as nat),
{
    ChordType::lemma_signatures(t, t);
    assert(rotate_once(voicing(root, t, j)) =~= voicing(root, t, (j - 1) as nat));
}

/// The `k`-th inversion guess on inversion `j` of a chord works on its
/// inversion `j - k`.
pub proof fn lemma_rotation_of_voicing(root: int, t: ChordType, j: nat, k: nat)
    requires
        k <= j < t.signature().len(),
    ensures
        rotation(voicing(root, t, j), k) == voicing(root, t, (j - k) as nat),
    decreases k,
{
    if k > 0 {
        lemma_rotation_of_voicing(root, t, j, (k - 1) as nat);
        lemma_rotate_voicing(root, t, (j - k + 1) as nat);
    }
}

/// The offsets of an inversion, entry by entry.
proof fn lemma_offsets_of_voicing(root: int, t: ChordType, i: nat)
    requires
        i < t.signature().len(),
    ensures
        offsets(voicing(root, t, i)).len() == t.signature().len(),
        forall|m: int|
            0 <= m < t.signature().len() ==> #[trigger] offsets(voicing(root, t, i))[m] == (if m + i
                < t.signature().len() {
                t.signature()[m + i] - t.signature()[i as int]
            } else {
                t.signature()[m + i - t.signature().len()] + 12 - t.signature()[i as int]
            }),
{
    ChordType::lemma_signatures(t, t);
}

/// What each inversion of each chord type reads as, taken from its lowest
/// note.
pub proof fn lemma_reads_as(root: int, t: ChordType, i: nat)
    requires
        i < t.signature().len(),
    ensures
        classify_spec(offsets(voicing(root, t, i))) == reads_as(t, i),
{
    let p = offsets(voicing(root, t, i));
    lemma_offsets_of_voicing(root, t, i);
    ChordType::lemma_signatures(t, t);
    assert(p[0] == 0);
    assert(p[1] == p[1]);
    assert(p[2] == p[2]);
    if p.len() == 4 {
        assert(p[3] == p[3]);
    }
    assert forall|u: ChordType| (u.signature() == p) == (reads_as(t, i) == Some(u)) by {
        let s = u.signature();
        if s == p {
            assert(s.len() == p.len());
            assert(s[1] == p[1]);
            assert(s[2] == p[2]);
            if s.len() == 4 {
                assert(s[3] == p[3]);
            }
        }
        if reads_as(t, i) == Some(u) {
            assert(s =~= p);
        }
    }
    match reads_as(t, i) {
        Some(u) => {
            lemma_classify(p, u);
        },
        None => {
            if classify_spec(p) is Some {
                lemma_classify(p, classify_spec(p).unwrap());
            }
        },
    }
}

/// An inversion is ambiguous exactly when it, or a lower inversion above
/// root position, reads as a root-position chord.
pub proof fn lemma_ambiguous(t: ChordType, j: nat)
    requires
        j < t.signature().len(),
    ensures
        ambiguous(t, j) <==> exists|i: nat| 1 <= i <= j && reads_as(t, i) is Some,
{
    ChordType::lemma_signatures(t, t);
    if ambiguous(t, j) {
        match t {
            ChordType::SusTwo => assert(reads_as(t, 2) is Some),
            ChordType::SusSix => assert(reads_as(t, 3) is Some),
            _ => assert(reads_as(t, 1) is Some),
        }
    }
}

/// The notes of a chord, held in any order, are named by that chord's root,
/// type and inversion, with the octave of its root note, unless the
/// inversion is ambiguous.
pub proof fn lemma_identify_voicing(held: Seq<u8>, voiced: Seq<u8>, root: int, t: ChordType, j: nat)
    requires
        j < t.signature().len(),
        as_ints(voiced) == voicing(root, t, j),
        held.to_multiset() == voiced.to_multiset(),
        !ambiguous(t, j),
    ensures
        identify_spec(held) == Some(intended(root, t, j)),
{
    lemma_voicing_is_read(held, voiced, root, t, j);
    let sorted = voicing(root, t, j);
    lemma_first_guess(sorted, 0);
    lemma_ambiguous(t, j);
    let k = first_guess(sorted, 0).unwrap();
    if k < j {
        lemma_rotation_of_voicing(root, t, j, k);
        lemma_reads_as(root, t, (j - k) as nat);
        assert(reads_as(t, (j - k) as nat) is Some);
    }
}

/// The notes of an ambiguous inversion are named as another chord: the
/// recognizer settles on a lower inversion than the one played.
pub proof fn lemma_identify_ambiguous(held: Seq<u8>, voiced: Seq<u8>, root: int, t: ChordType, j: nat)
    requires
        j < t.signature().len(),
        as_ints(voiced) == voicing(root, t, j),
        held.to_multiset() == voiced.to_multiset(),
        ambiguous(t, j),
    ensures
        identify_spec(held) matches Some(chord) && chord.inversion < j,
{
    lemma_voicing_is_read(held, voiced, root, t, j);
    let sorted = voicing(root, t, j);
    lemma_first_guess(sorted, 0);
    lemma_ambiguous(t, j);
    let i = choose|i: nat| 1 <= i <= j && reads_as(t, i) is Some;
    let early = (j - i) as nat;
    lemma_rotation_of_voicing(root, t, j, early);
    lemma_reads_as(root, t, i);
    assert(guess_at(sorted, early) is Some);
}

/// The recognizer works on the voicing itself, and its `j`-th guess finds
/// the chord that was voiced.
proof fn lemma_voicing_is_read(held: Seq<u8>, voiced: Seq<u8>, root: int, t: ChordType, j: nat)
    requires
        j < t.signature().len(),
        as_ints(voiced) == voicing(root, t, j),
        held.to_multiset() == voiced.to_multiset(),
    ensures
        as_ints(ascending(held)) == voicing(root, t, j),
        guess_at(voicing(root, t, j), j) == Some(t),
        chord_at(voicing(root, t, j), j) == intended(root, t, j),
        identify_spec(held) == match first_guess(voicing(root, t, j), 0) {
            Some(k) => Some(chord_at(voicing(root, t, j), k)),
            None => None,
        },
{
    let sorted = voicing(root, t, j);
    ChordType::lemma_signatures(t, t);
    assert forall|a: int, b: int| 0 <= a < b < voiced.len() implies voiced[a] <= voiced[b] by {
        assert(as_ints(voiced)[a] == voiced[a]);
        assert(as_ints(voiced)[b] == voiced[b]);
        assert(sorted[a] <= sorted[b]);
    }
    lemma_ascending_fixes_sorted(voiced);
    lemma_identify_ignores_order(held, voiced);
    lemma_rotation_of_voicing(root, t, j, j);
    lemma_reads_as(root, t, 0);
    assert(voicing(root, t, 0)[0] == root);
}

} // verus!
