//! The chord drill: a shuffled queue of chords to play, one per chromatic
//! step and hand, and the judgment of what is played against its front.

use vstd::prelude::*;
use vstd::string::*;
use crate::chance::{lemma_map_keeps_arrangement, shuffle};
use crate::chord::{Chord, ChordType, ChordView, Hand};
use crate::pitch::{canonical_name, step_name};
use crate::recognizer::{identify_chord, identify_spec, lemma_small_sets_spell_nothing};
use crate::tracker::{KeyState, KeyStateView};

verus! {

/// A drill target as the contracts see it: the chord and the hand to play
/// it with.
pub type TargetView = (ChordView, Hand);

/// What a queue entry holds.
pub open spec fn target_view(target: (Chord, Hand)) -> TargetView {
    (target.0@, target.1)
}

/// The map from queue entries to what they hold.
pub open spec fn viewing() -> spec_fn((Chord, Hand)) -> TargetView {
    |target: (Chord, Hand)| target_view(target)
}

/// What a queue holds, entry by entry.
pub open spec fn target_views(queue: Seq<(Chord, Hand)>) -> Seq<TargetView> {
    queue.map_values(viewing())
}

/// The targets of one hand: the chord on each of the twelve chromatic
/// steps, from C upwards, with no octave asked for.
pub open spec fn hand_targets(chord_type: ChordType, inversion: nat, hand: Hand) -> Seq<
    TargetView,
> {
    Seq::new(
        12,
        |step: int|
            (ChordView { root: canonical_name(step), chord_type, inversion, octave: None }, hand),
    )
}

/// The targets of a drill before they are shuffled: those of the left hand,
/// then those of the right, each where the drill includes that hand.
pub open spec fn ordered_targets(chord_type: ChordType, inversion: nat, hand: Hand) -> Seq<
    TargetView,
> {
    (if hand == Hand::Left || hand == Hand::Both {
        hand_targets(chord_type, inversion, Hand::Left)
    } else {
        Seq::<TargetView>::empty()
    }) + (if hand == Hand::Right || hand == Hand::Both {
        hand_targets(chord_type, inversion, Hand::Right)
    } else {
        Seq::<TargetView>::empty()
    })
}

/// Whether a played chord satisfies a target: root, type and inversion
/// agree, the octaves agree where both are known, and the played octave,
/// where known, lies in the band of the target's hand.
pub open spec fn accepts(target: TargetView, played: ChordView) -> bool {
    &&& target.0.agrees_with(played)
    &&& (played.octave matches Some(octave) ==> target.1.plays_in(octave))
}

/// What the drill says to an attempt.
#[derive(Debug, Copy, Clone, PartialEq, Eq, Structural)]
pub enum Feedback {
    /// There was nothing to judge.
    Nothing,
    /// The front target was played; it has left the queue.
    Correct,
    /// A chord was played, but not the front target.
    TryAgain,
    /// The held notes spell no chord.
    Unrecognised,
}

impl Feedback {
    /// How long the drill loop rests after this feedback, so that keys
    /// still held are not judged twice: the debounce time after any
    /// judgment, no time where nothing was judged.
    pub fn cooldown(&self, debounce: u64) -> (millis: u64)
        ensures
            millis == (if *self == Feedback::Nothing {
                0
            } else {
                debounce
            }),
    {
        match *self {
            Feedback::Nothing => 0,
            _ => debounce,
        }
    }
}

/// The judgment of the held notes against the front of the queue.
pub open spec fn judged(queue: Seq<TargetView>, held: Seq<u8>) -> Feedback {
    if queue.len() == 0 || held.len() == 0 {
        Feedback::Nothing
    } else {
        match identify_spec(held) {
            Some(played) => if accepts(queue[0], played) {
                Feedback::Correct
            } else {
                Feedback::TryAgain
            },
            None => Feedback::Unrecognised,
        }
    }
}

/// The queue after an attempt: a correct one takes the front target off,
/// any other leaves the queue as it is.
pub open spec fn queue_after(queue: Seq<TargetView>, held: Seq<u8>) -> Seq<TargetView> {
    if judged(queue, held) == Feedback::Correct {
        queue.drop_first()
    } else {
        queue
    }
}

/// The queue after a run of attempts, one after the other.
pub open spec fn queue_after_all(queue: Seq<TargetView>, attempts: Seq<Seq<u8>>) -> Seq<
    TargetView,
>
    decreases attempts.len(),
{
    if attempts.len() == 0 {
        queue
    } else {
        queue_after_all(queue_after(queue, attempts[0]), attempts.drop_first())
    }
}

/// How many attempts of a run are judged correct.
pub open spec fn correct_among(queue: Seq<TargetView>, attempts: Seq<Seq<u8>>) -> nat
    decreases attempts.len(),
{
    if attempts.len() == 0 {
        0
    } else {
        (if judged(queue, attempts[0]) == Feedback::Correct {
            1nat
        } else {
            0nat
        }) + correct_among(queue_after(queue, attempts[0]), attempts.drop_first())
    }
}

/// Whether `played` satisfies `target`.
pub fn target_accepts(target: &(Chord, Hand), played: &Chord) -> (accepted: bool)
    ensures
        accepted == accepts(target_view(*target), played@),
{
    let in_band = match played.octave {
        Some(octave) => target.1.covers(octave),
        None => true,
    };
    target.0 == *played && in_band
}

/// The targets of one hand, from C upwards.
fn push_hand_targets(
    queue: &mut Vec<(Chord, Hand)>,
    chord_type: ChordType,
    inversion: usize,
    hand: Hand,
)
    ensures
        target_views(final(queue)@) == target_views(old(queue)@) + hand_targets(
            chord_type,
            inversion as nat,
            hand,
        ),
{
    let ghost before = target_views(queue@);
    let ghost wanted = hand_targets(chord_type, inversion as nat, hand);
    let mut step: u8 = 0;
    while step < 12
        invariant
            step <= 12,
            wanted == hand_targets(chord_type, inversion as nat, hand),
            target_views(queue@) == before + wanted.subrange(0, step as int),
        decreases 12 - step,
    {
        let ghost so_far = queue@;
        let chord = Chord {
            root: String::from_str(step_name(step)),
            chord_type,
            inversion,
            octave: None,
        };
        queue.push((chord, hand));
        proof {
            assert(target_views(queue@) =~= target_views(so_far).push(wanted[step as int]));
            assert(before + wanted.subrange(0, step + 1) =~= (before + wanted.subrange(
                0,
                step as int,
            )).push(wanted[step as int]));
        }
        step += 1;
    }
    assert(wanted.subrange(0, 12) =~= wanted);
}

/// The targets of a drill in their fixed order: one per chromatic step for
/// each hand that the drill includes, all of the given type and inversion.
pub fn chord_list(chord_type: ChordType, inversion: usize, hand: Hand) -> (queue: Vec<
    (Chord, Hand),
>)
    ensures
        target_views(queue@) == ordered_targets(chord_type, inversion as nat, hand),
        queue.len() == (if hand == Hand::Both {
            24int
        } else {
            12int
        }),
{
    let mut queue: Vec<(Chord, Hand)> = Vec::new();
    assert(target_views(queue@) =~= Seq::<TargetView>::empty());
    if hand == Hand::Left || hand == Hand::Both {
        push_hand_targets(&mut queue, chord_type, inversion, Hand::Left);
    } else {
        assert(target_views(queue@) =~= target_views(queue@) + Seq::<TargetView>::empty());
    }
    if hand == Hand::Right || hand == Hand::Both {
        push_hand_targets(&mut queue, chord_type, inversion, Hand::Right);
    } else {
        assert(target_views(queue@) =~= target_views(queue@) + Seq::<TargetView>::empty());
    }
    assert(queue.len() == target_views(queue@).len());
    queue
}

/// The targets of a drill in a random order. Whatever the order, the queue
/// holds exactly the targets of `ordered_targets`, each once.
pub fn generate_chord_list(chord_type: ChordType, inversion: usize, hand: Hand) -> (queue: Vec<
    (Chord, Hand),
>)
    ensures
        target_views(queue@).to_multiset() == ordered_targets(
            chord_type,
            inversion as nat,
            hand,
        ).to_multiset(),
        queue.len() == ordered_targets(chord_type, inversion as nat, hand).len(),
{
    let mut queue = chord_list(chord_type, inversion, hand);
    let ghost ordered = queue@;
    shuffle(&mut queue);
    proof {
        lemma_map_keeps_arrangement(queue@, ordered, viewing());
        queue@.to_multiset_ensures();
        ordered.to_multiset_ensures();
    }
    queue
}

/// A chord drill in progress: the targets still to be played, front first.
pub struct ChordDrill {
    queue: Vec<(Chord, Hand)>,
}

impl View for ChordDrill {
    type V = Seq<TargetView>;

    closed spec fn view(&self) -> Seq<TargetView> {
        target_views(self.queue@)
    }
}

impl ChordDrill {
    /// A fresh drill on a shuffled queue: one target per chromatic step for
    /// each hand that the drill includes.
    pub fn new(chord_type: ChordType, inversion: usize, hand: Hand) -> (drill: ChordDrill)
        ensures
            drill@.to_multiset() == ordered_targets(
                chord_type,
                inversion as nat,
                hand,
            ).to_multiset(),
            drill@.len() == ordered_targets(chord_type, inversion as nat, hand).len(),
    {
        ChordDrill { queue: generate_chord_list(chord_type, inversion, hand) }
    }

    /// A drill on the given queue, front first.
    pub fn from_targets(queue: Vec<(Chord, Hand)>) -> (drill: ChordDrill)
        ensures
            drill@ == target_views(queue@),
    {
        ChordDrill { queue }
    }

    /// How many targets are still to be played.
    pub fn remaining(&self) -> (count: usize)
        ensures
            count == self@.len(),
    {
        self.queue.len()
    }

    /// Whether every target has been played.
    pub fn is_complete(&self) -> (done: bool)
        ensures
            done == (self@.len() == 0),
    {
        self.queue.len() == 0
    }

    /// The target to play next, if any is left.
    pub fn current(&self) -> (front: Option<&(Chord, Hand)>)
        ensures
            match front {
                Some(target) => self@.len() > 0 && target_view(*target) == self@[0],
                None => self@.len() == 0,
            },
    {
        if self.queue.len() > 0 {
            Some(&self.queue[0])
        } else {
            None
        }
    }

    /// Judges the held notes against the front target. A correct attempt
    /// takes the target off the queue; any other leaves the queue as it is.
    /// With no target left, or no note held, there is nothing to judge.
    pub fn judge(&mut self, held: &Vec<u8>) -> (feedback: Feedback)
        ensures
            feedback == judged(old(self)@, held@),
            final(self)@ == queue_after(old(self)@, held@),
    {
        if self.queue.len() == 0 || held.len() == 0 {
            return Feedback::Nothing;
        }
        match identify_chord(held) {
            Some(played) => {
                if target_accepts(&self.queue[0], &played) {
                    let ghost before = self.queue@;
                    self.queue.remove(0);
                    assert(target_views(self.queue@) =~= target_views(before).drop_first());
                    Feedback::Correct
                } else {
                    Feedback::TryAgain
                }
            },
            None => Feedback::Unrecognised,
        }
    }

    /// One turn of the drill loop at time `now`: polls the tracker through
    /// the debounce gate and judges what it hands over. A finished drill
    /// leaves the tracker alone.
    pub fn step(&mut self, tracker: &mut KeyState, now: u64, debounce: u64) -> (feedback: Feedback)
        ensures
            feedback == stepped(old(self)@, old(tracker)@, now, debounce),
            final(self)@ == (match old(tracker)@.stable_snapshot(now, debounce) {
                Some(held) => queue_after(old(self)@, held),
                None => old(self)@,
            }),
            final(tracker)@ == (if old(self)@.len() == 0 {
                old(tracker)@
            } else {
                old(tracker)@.polled(now, debounce)
            }),
    {
        if self.queue.len() == 0 {
            return Feedback::Nothing;
        }
        match tracker.poll(now, debounce) {
            Some(held) => self.judge(&held),
            None => Feedback::Nothing,
        }
    }
}

/// What one turn of the drill loop says: nothing while the drill is
/// finished or the keys have not settled, else the judgment of the held
/// notes.
pub open spec fn stepped(
    queue: Seq<TargetView>,
    tracker: KeyStateView,
    now: u64,
    debounce: u64,
) -> Feedback {
    if queue.len() == 0 {
        Feedback::Nothing
    } else {
        match tracker.stable_snapshot(now, debounce) {
            Some(held) => judged(queue, held),
            None => Feedback::Nothing,
        }
    }
}

/// A run of attempts shortens the queue by exactly the number of correct
/// ones, whatever else was played in between: what is left is the queue
/// without that many targets from its front. So a queue of N targets is
/// used up after exactly N correct judgments.
pub proof fn lemma_queue_exhaustion(queue: Seq<TargetView>, attempts: Seq<Seq<u8>>)
    ensures
        correct_among(queue, attempts) <= queue.len(),
        queue_after_all(queue, attempts) == queue.skip(correct_among(queue, attempts) as int),
        queue_after_all(queue, attempts).len() == 0 <==> correct_among(queue, attempts)
            == queue.len(),
    decreases attempts.len(),
{
    if attempts.len() == 0 {
        assert(queue.skip(0) =~= queue);
    } else {
        let next = queue_after(queue, attempts[0]);
        lemma_queue_exhaustion(next, attempts.drop_first());
        let later = correct_among(next, attempts.drop_first());
        if judged(queue, attempts[0]) == Feedback::Correct {
            assert(queue.drop_first().skip(later as int) =~= queue.skip(later as int + 1));
        }
    }
}

/// Hand-octave gating. A chord played in an octave outside the band of the
/// target's hand is rejected, even where root, type and inversion are the
/// target's. A target that asks for no octave accepts a chord of its root,
/// type and inversion in any octave of its hand's band, and one whose
/// octave is not known.
pub proof fn lemma_hand_gating(target: TargetView, played: ChordView)
    ensures
        (played.octave matches Some(octave) && !target.1.plays_in(octave)) ==> !accepts(
            target,
            played,
        ),
        (target.0.octave is None && target.0.root == played.root && target.0.chord_type
            == played.chord_type && target.0.inversion == played.inversion) ==> (accepts(
            target,
            played,
        ) <==> (played.octave matches Some(octave) ==> target.1.plays_in(octave))),
{
}

/// A chord played outside the band of the front target's hand never takes
/// the target off the queue: the attempt is answered with "try again" and
/// the queue stays as it is.
pub proof fn lemma_wrong_hand_keeps_target(queue: Seq<TargetView>, held: Seq<u8>)
    requires
        queue.len() > 0,
        identify_spec(held) is Some,
        identify_spec(held).unwrap().octave is Some,
        !queue[0].1.plays_in(identify_spec(held).unwrap().octave.unwrap()),
    ensures
        judged(queue, held) == Feedback::TryAgain,
        queue_after(queue, held) == queue,
{
    lemma_hand_gating(queue[0], identify_spec(held).unwrap());
    if held.len() == 0 {
        lemma_small_sets_spell_nothing(held);
    }
}

} // verus!
