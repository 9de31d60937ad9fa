//! Chord identities: the closed set of chord types with their interval
//! signatures, the hand a drill assigns, and the chord itself.

use vstd::prelude::*;
use vstd::string::*;
use crate::text::{decimal, decimal_string, ordinal_string, ordinal_text};

verus! {

/// The hand a drill target is assigned to.
#[derive(Debug, Copy, Clone, PartialEq, Eq, Structural)]
pub enum Hand {
    Left,
    Right,
    Both,
}

impl Hand {
    /// The octaves in which this hand is expected to play.
    pub open spec fn octave_band(self) -> Seq<u8> {
        match self {
            Hand::Left => seq![0u8, 1u8, 2u8],
            Hand::Right => seq![3u8, 4u8, 5u8],
            Hand::Both => seq![0u8, 1u8, 2u8, 3u8, 4u8, 5u8],
        }
    }

    /// Whether `octave` lies in this hand's band: the low three octaves for
    /// the left hand, the next three for the right, all six for both.
    pub open spec fn plays_in(self, octave: u8) -> bool {
        match self {
            Hand::Left => octave <= 2,
            Hand::Right => 3 <= octave <= 5,
            Hand::Both => octave <= 5,
        }
    }

    /// How this hand is called in a prompt.
    pub open spec fn label(self) -> Seq<char> {
        match self {
            Hand::Left => "Left Hand"@,
            Hand::Right => "Right Hand"@,
            Hand::Both => "Both Hands"@,
        }
    }

    /// How this hand is called in a prompt.
    pub fn to_text(&self) -> (text: String)
        ensures
            text@ == self.label(),
    {
        match *self {
            Hand::Left => String::from_str("Left Hand"),
            Hand::Right => String::from_str("Right Hand"),
            Hand::Both => String::from_str("Both Hands"),
        }
    }

    /// The hand at a position of the menu "left, right, both"; any later
    /// position stands for both hands.
    pub fn from_index(index: usize) -> (hand: Hand)
        ensures
            hand == (if index == 0 {
                Hand::Left
            } else if index == 1 {
                Hand::Right
            } else {
                Hand::Both
            }),
    {
        match index {
            0 => Hand::Left,
            1 => Hand::Right,
            _ => Hand::Both,
        }
    }

    /// The octaves in which this hand is expected to play, ascending.
    pub fn value(&self) -> (band: Vec<u8>)
        ensures
            band@ == self.octave_band(),
    {
        let mut band: Vec<u8> = Vec::new();
        match *self {
            Hand::Left => {
                band.push(0);
                band.push(1);
                band.push(2);
            },
            Hand::Right => {
                band.push(3);
                band.push(4);
                band.push(5);
            },
            Hand::Both => {
                band.push(0);
                band.push(1);
                band.push(2);
                band.push(3);
                band.push(4);
                band.push(5);
            },
        }
        assert(band@ =~= self.octave_band());
        band
    }

    /// Whether `octave` lies in this hand's band.
    pub fn covers(&self, octave: u8) -> (inside: bool)
        ensures
            inside == self.plays_in(octave),
            inside == self.octave_band().contains(octave),
    {
        proof {
            self.lemma_band_membership(octave);
        }
        match *self {
            Hand::Left => octave <= 2,
            Hand::Right => 3 <= octave && octave <= 5,
            Hand::Both => octave <= 5,
        }
    }

    /// An octave belongs to the band exactly when it lies in the band's
    /// range.
    pub proof fn lemma_band_membership(self, octave: u8)
        ensures
            self.octave_band().contains(octave) == self.plays_in(octave),
    {
        let band = self.octave_band();
        if self.plays_in(octave) {
            match self {
                Hand::Left => {
                    assert(band[octave as int] == octave);
                },
                Hand::Right => {
                    assert(band[octave as int - 3] == octave);
                },
                Hand::Both => {
                    assert(band[octave as int] == octave);
                },
            }
        }
    }
}

/// The chord types that the recognizer knows.
#[derive(Debug, Copy, Clone, PartialEq, Eq, Structural)]
pub enum ChordType {
    Major,
    Minor,
    Diminished,
    MajorSeventh,
    MinorSeventh,
    DominantSeventh,
    Augmented,
    SusTwo,
    SusFour,
    SevenSusTwo,
    SevenSusFour,
    SusSix,
}

impl ChordType {
    /// The interval signature of this chord type: the semitone offsets of
    /// its notes from the lowest one, in root position, ascending.
    pub open spec fn signature(self) -> Seq<int> {
        match self {
            ChordType::Major => seq![0int, 4, 7],
            ChordType::Minor => seq![0int, 3, 7],
            ChordType::Diminished => seq![0int, 3, 6],
            ChordType::MajorSeventh => seq![0int, 4, 7, 11],
            ChordType::MinorSeventh => seq![0int, 3, 7, 10],
            ChordType::DominantSeventh => seq![0int, 4, 7, 10],
            ChordType::Augmented => seq![0int, 4, 8],
            ChordType::SusTwo => seq![0int, 2, 7],
            ChordType::SusFour => seq![0int, 5, 7],
            ChordType::SevenSusTwo => seq![0int, 2, 7, 10],
            ChordType::SevenSusFour => seq![0int, 5, 7, 10],
            ChordType::SusSix => seq![0int, 4, 7, 9],
        }
    }

    /// The suffix that follows the root in a chord's written name.
    pub open spec fn suffix(self) -> Seq<char> {
        match self {
            ChordType::Major => ""@,
            ChordType::Minor => "m"@,
            ChordType::Diminished => "dim"@,
            ChordType::MajorSeventh => "maj7"@,
            ChordType::MinorSeventh => "min7"@,
            ChordType::DominantSeventh => "dom7"@,
            ChordType::Augmented => "aug"@,
            ChordType::SusTwo => "sus2"@,
            ChordType::SusFour => "sus4"@,
            ChordType::SevenSusTwo => "7sus2"@,
            ChordType::SevenSusFour => "7sus4"@,
            ChordType::SusSix => "sus6"@,
        }
    }

    /// The name under which a menu offers this chord type.
    pub open spec fn menu_label(self) -> Seq<char> {
        match self {
            ChordType::Major => "Major"@,
            ChordType::Minor => "Minor"@,
            ChordType::Diminished => "Diminished"@,
            ChordType::MajorSeventh => "Major Seventh"@,
            ChordType::MinorSeventh => "Minor Seventh"@,
            ChordType::DominantSeventh => "Dominant Seventh"@,
            ChordType::Augmented => "Augmented"@,
            ChordType::SusTwo => "sus2"@,
            ChordType::SusFour => "sus4"@,
            ChordType::SevenSusTwo => "7sus2"@,
            ChordType::SevenSusFour => "7sus4"@,
            ChordType::SusSix => "sus6"@,
        }
    }

    /// The name under which a menu offers this chord type.
    pub fn menu_name(&self) -> (name: &'static str)
        ensures
            name@ == self.menu_label(),
    {
        match *self {
            ChordType::Major => "Major",
            ChordType::Minor => "Minor",
            ChordType::Diminished => "Diminished",
            ChordType::MajorSeventh => "Major Seventh",
            ChordType::MinorSeventh => "Minor Seventh",
            ChordType::DominantSeventh => "Dominant Seventh",
            ChordType::Augmented => "Augmented",
            ChordType::SusTwo => "sus2",
            ChordType::SusFour => "sus4",
            ChordType::SevenSusTwo => "7sus2",
            ChordType::SevenSusFour => "7sus4",
            ChordType::SusSix => "sus6",
        }
    }

    /// The suffix that follows the root in a chord's written name.
    pub fn value(&self) -> (text: String)
        ensures
            text@ == self.suffix(),
    {
        match *self {
            ChordType::Major => String::from_str(""),
            ChordType::Minor => String::from_str("m"),
            ChordType::Diminished => String::from_str("dim"),
            ChordType::MajorSeventh => String::from_str("maj7"),
            ChordType::MinorSeventh => String::from_str("min7"),
            ChordType::DominantSeventh => String::from_str("dom7"),
            ChordType::Augmented => String::from_str("aug"),
            ChordType::SusTwo => String::from_str("sus2"),
            ChordType::SusFour => String::from_str("sus4"),
            ChordType::SevenSusTwo => String::from_str("7sus2"),
            ChordType::SevenSusFour => String::from_str("7sus4"),
            ChordType::SusSix => String::from_str("sus6"),
        }
    }

    /// The interval signature of this chord type.
    pub fn intervals(&self) -> (offsets: Vec<u8>)
        ensures
            offsets@.map_values(|x: u8| x as int) == self.signature(),
    {
        let mut offsets: Vec<u8> = Vec::new();
        offsets.push(0);
        match *self {
            ChordType::Major => {
                offsets.push(4);
                offsets.push(7);
            },
            ChordType::Minor => {
                offsets.push(3);
                offsets.push(7);
            },
            ChordType::Diminished => {
                offsets.push(3);
                offsets.push(6);
            },
            ChordType::MajorSeventh => {
                offsets.push(4);
                offsets.push(7);
                offsets.push(11);
            },
            ChordType::MinorSeventh => {
                offsets.push(3);
                offsets.push(7);
                offsets.push(10);
            },
            ChordType::DominantSeventh => {
                offsets.push(4);
                offsets.push(7);
                offsets.push(10);
            },
            ChordType::Augmented => {
                offsets.push(4);
                offsets.push(8);
            },
            ChordType::SusTwo => {
                offsets.push(2);
                offsets.push(7);
            },
            ChordType::SusFour => {
                offsets.push(5);
                offsets.push(7);
            },
            ChordType::SevenSusTwo => {
                offsets.push(2);
                offsets.push(7);
                offsets.push(10);
            },
            ChordType::SevenSusFour => {
                offsets.push(5);
                offsets.push(7);
                offsets.push(10);
            },
            ChordType::SusSix => {
                offsets.push(4);
                offsets.push(7);
                offsets.push(9);
            },
        }
        assert(offsets@.map_values(|x: u8| x as int) =~= self.signature());
        offsets
    }

    /// Every chord type, in the order of the signature table.
    pub open spec fn table() -> Seq<ChordType> {
        seq![
            ChordType::Major,
            ChordType::Minor,
            ChordType::Diminished,
            ChordType::MajorSeventh,
            ChordType::MinorSeventh,
            ChordType::DominantSeventh,
            ChordType::Augmented,
            ChordType::SusTwo,
            ChordType::SusFour,
            ChordType::SevenSusTwo,
            ChordType::SevenSusFour,
            ChordType::SusSix,
        ]
    }

    /// Every chord type, in the order of the signature table.
    pub fn all() -> (types: Vec<ChordType>)
        ensures
            types@ == Self::table(),
    {
        let mut types: Vec<ChordType> = Vec::new();
        types.push(ChordType::Major);
        types.push(ChordType::Minor);
        types.push(ChordType::Diminished);
        types.push(ChordType::MajorSeventh);
        types.push(ChordType::MinorSeventh);
        types.push(ChordType::DominantSeventh);
        types.push(ChordType::Augmented);
        types.push(ChordType::SusTwo);
        types.push(ChordType::SusFour);
        types.push(ChordType::SevenSusTwo);
        types.push(ChordType::SevenSusFour);
        types.push(ChordType::SusSix);
        assert(types@ =~= Self::table());
        types
    }

    /// The chord type at a position of the signature table, as a menu of the
    /// twelve types offers them.
    pub fn from_index(index: usize) -> (chosen: Option<ChordType>)
        ensures
            index < 12 ==> chosen == Some(Self::table()[index as int]),
            index >= 12 ==> chosen is None,
    {
        match index {
            0 => Some(ChordType::Major),
            1 => Some(ChordType::Minor),
            2 => Some(ChordType::Diminished),
            3 => Some(ChordType::MajorSeventh),
            4 => Some(ChordType::MinorSeventh),
            5 => Some(ChordType::DominantSeventh),
            6 => Some(ChordType::Augmented),
            7 => Some(ChordType::SusTwo),
            8 => Some(ChordType::SusFour),
            9 => Some(ChordType::SevenSusTwo),
            10 => Some(ChordType::SevenSusFour),
            11 => Some(ChordType::SusSix),
            _ => None,
        }
    }

    /// The table lists every chord type.
    pub proof fn lemma_table_complete(self)
        ensures
            exists|i: int| 0 <= i < 12 && Self::table()[i] == self,
            Self::table().len() == 12,
    {
        let t = Self::table();
        match self {
            ChordType::Major => assert(t[0] == self),
            ChordType::Minor => assert(t[1] == self),
            ChordType::Diminished => assert(t[2] == self),
            ChordType::MajorSeventh => assert(t[3] == self),
            ChordType::MinorSeventh => assert(t[4] == self),
            ChordType::DominantSeventh => assert(t[5] == self),
            ChordType::Augmented => assert(t[6] == self),
            ChordType::SusTwo => assert(t[7] == self),
            ChordType::SusFour => assert(t[8] == self),
            ChordType::SevenSusTwo => assert(t[9] == self),
            ChordType::SevenSusFour => assert(t[10] == self),
            ChordType::SusSix => assert(t[11] == self),
        }
    }

    /// No two chord types share a signature, every signature starts at 0,
    /// and every signature has three or four entries.
    pub proof fn lemma_signatures(a: ChordType, b: ChordType)
        ensures
            a.signature() == b.signature() ==> a == b,
            3 <= a.signature().len() <= 4,
            a.signature()[0] == 0,
    {
        let sa = a.signature();
        let sb = b.signature();
        if sa == sb && a != b {
            assert(sa.len() == sb.len());
            assert(sa[1] == sb[1]);
            assert(sa[2] == sb[2]);
            if sa.len() == 4 {
                assert(sa[3] == sb[3]);
            }
        }
    }
}

/// A chord as it is named: root, type, inversion and, where known, the
/// octave of its lowest note.
#[derive(Debug)]
pub struct Chord {
    /// Usual name of the root's chromatic step.
    pub root: String,
    pub chord_type: ChordType,
    /// Which chord member lies lowest; 0 is root position.
    pub inversion: usize,
    /// Octave of the lowest note, or `None` where it is not known.
    pub octave: Option<u8>,
}

/// What a `Chord` holds, with the root as the characters of its name.
pub struct ChordView {
    pub root: Seq<char>,
    pub chord_type: ChordType,
    pub inversion: nat,
    pub octave: Option<u8>,
}

impl ChordView {
    /// Whether two chords count as the same in a drill: root, type and
    /// inversion agree, and the octaves agree where both are known.
    pub open spec fn agrees_with(self, other: ChordView) -> bool {
        &&& self.root == other.root
        &&& self.chord_type == other.chord_type
        &&& self.inversion == other.inversion
        &&& (self.octave is None || other.octave is None || self.octave == other.octave)
    }

    /// The written name of the chord: root and type suffix, then the
    /// inversion as an ordinal unless it is root position, then the octave
    /// in brackets where it is known.
    pub open spec fn written(self) -> Seq<char> {
        self.root + self.chord_type.suffix() + (if self.inversion == 0 {
            Seq::<char>::empty()
        } else {
            ", "@ + ordinal_text(self.inversion) + " inversion"@
        }) + (match self.octave {
            Some(octave) => "("@ + decimal(octave as nat) + ")"@,
            None => Seq::<char>::empty(),
        })
    }
}

impl Chord {
    /// The written name of the chord, such as "C#m, 1st inversion(3)".
    pub fn to_text(&self) -> (text: String)
        ensures
            text@ == self@.written(),
    {
        let mut text = self.root.clone();
        text.append(self.chord_type.value().as_str());
        if self.inversion != 0 {
            text.append(", ");
            text.append(ordinal_string(self.inversion).as_str());
            text.append(" inversion");
        }
        match self.octave {
            Some(octave) => {
                text.append("(");
                text.append(decimal_string(octave).as_str());
                text.append(")");
            },
            None => {},
        }
        assert(text@ =~= self@.written());
        text
    }
}

impl PartialEq for Chord {
    /// Equality for drill purposes: an unknown octave on either side matches
    /// any octave.
    fn eq(&self, other: &Self) -> (same: bool) {
        if self.root != other.root || self.chord_type != other.chord_type || self.inversion
            != other.inversion {
            return false;
        }
        match (self.octave, other.octave) {
            (Some(mine), Some(theirs)) => mine == theirs,
            _ => true,
        }
    }
}

impl vstd::std_specs::cmp::PartialEqSpecImpl for Chord {
    open spec fn obeys_eq_spec() -> bool {
        true
    }

    open spec fn eq_spec(&self, other: &Self) -> bool {
        self@.agrees_with(other@)
    }
}

impl View for Chord {
    type V = ChordView;

    open spec fn view(&self) -> ChordView {
        ChordView {
            root: self.root@,
            chord_type: self.chord_type,
            inversion: self.inversion as nat,
            octave: self.octave,
        }
    }
}

} // verus!
