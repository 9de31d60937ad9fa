//! The scale drill: the notes of a table of scales, to be played one after
//! the other, and the judgment of the note pressed last against the next
//! one due.

use vstd::prelude::*;
use vstd::string::*;
use crate::pitch::{names_step, note_matches, pitch_class};
use crate::scale_table::ScaleTable;
use crate::scales::{chromatic_roots, generate_scales, scale_table, Mode};
use crate::tracker::{KeyState, KeyStateView};

verus! {

/// What the drill says to a played note.
#[derive(Debug, Copy, Clone, PartialEq, Eq, Structural)]
pub enum ScaleFeedback {
    /// There was nothing to judge.
    Nothing,
    /// The note due was played; the drill has moved on.
    Right,
    /// Another note than the one due was played: the note number that was.
    Wrong(u8),
}

/// The note that counts in a scale drill: the one pressed last among those
/// held.
pub open spec fn last_pressed(held: Seq<u8>) -> Option<u8> {
    if held.len() > 0 {
        Some(held.last())
    } else {
        None
    }
}

/// The judgment of a played note against the front of the queue of names.
pub open spec fn scale_judged(queue: Seq<Seq<char>>, played: Option<u8>) -> ScaleFeedback {
    if queue.len() == 0 {
        ScaleFeedback::Nothing
    } else {
        match played {
            Some(note) => if names_step(pitch_class(note as int), queue[0]) {
                ScaleFeedback::Right
            } else {
                ScaleFeedback::Wrong(note)
            },
            None => ScaleFeedback::Nothing,
        }
    }
}

/// The queue after a played note: the right one takes the front name off,
/// any other leaves the queue as it is.
pub open spec fn scale_queue_after(queue: Seq<Seq<char>>, played: Option<u8>) -> Seq<Seq<char>> {
    if scale_judged(queue, played) == ScaleFeedback::Right {
        queue.drop_first()
    } else {
        queue
    }
}

/// The queue after a run of played notes, one after the other.
pub open spec fn scale_queue_after_all(queue: Seq<Seq<char>>, played: Seq<Option<u8>>) -> Seq<
    Seq<char>,
>
    decreases played.len(),
{
    if played.len() == 0 {
        queue
    } else {
        scale_queue_after_all(scale_queue_after(queue, played[0]), played.drop_first())
    }
}

/// How many notes of a run are judged right.
pub open spec fn right_among(queue: Seq<Seq<char>>, played: Seq<Option<u8>>) -> nat
    decreases played.len(),
{
    if played.len() == 0 {
        0
    } else {
        (if scale_judged(queue, played[0]) == ScaleFeedback::Right {
            1nat
        } else {
            0nat
        }) + right_among(scale_queue_after(queue, played[0]), played.drop_first())
    }
}

/// What a `ScaleDrill` holds.
pub struct ScaleDrillView {
    /// Every note of the drill, scale after scale.
    pub names: Seq<Seq<char>>,
    /// How many notes a scale has.
    pub columns: nat,
    /// How many notes have been played right.
    pub next: nat,
}

impl ScaleDrillView {
    /// The notes still to be played, the one due first.
    pub open spec fn queue(self) -> Seq<Seq<char>> {
        self.names.skip(self.next as int)
    }

    /// The drill after a played note.
    pub open spec fn after(self, played: Option<u8>) -> ScaleDrillView {
        if scale_judged(self.queue(), played) == ScaleFeedback::Right {
            ScaleDrillView { names: self.names, columns: self.columns, next: self.next + 1 }
        } else {
            self
        }
    }

    /// Scale and note within it at which the drill stands.
    pub open spec fn place(self) -> (nat, nat) {
        if self.columns == 0 {
            (0, self.next)
        } else {
            (self.next / self.columns, self.next % self.columns)
        }
    }
}

/// A scale drill in progress.
pub struct ScaleDrill {
    names: Vec<String>,
    columns: usize,
    next: usize,
}

impl View for ScaleDrill {
    type V = ScaleDrillView;

    closed spec fn view(&self) -> ScaleDrillView {
        ScaleDrillView {
            names: self.names@.map_values(|name: String| name@),
            columns: self.columns as nat,
            next: self.next as nat,
        }
    }
}

impl ScaleDrill {
    #[verifier::type_invariant]
    spec fn within_names(self) -> bool {
        self.next <= self.names.len()
    }

    /// A fresh drill on the twelve scales of `mode`, the roots in a random
    /// order.
    pub fn new(mode: Mode) -> (drill: ScaleDrill)
        ensures
            exists|roots: Seq<usize>|
                roots.to_multiset() == chromatic_roots().to_multiset() && drill@.names
                    == scale_table(roots, mode).flatten(),
            drill@.next == 0,
            drill@.columns == 15,
    {
        let table = generate_scales(mode);
        let drill = ScaleDrill::from_table(&table);
        assert(table@[0].len() == 15);
        drill
    }

    /// A drill on the scales of a table, row after row.
    pub fn from_table(table: &ScaleTable) -> (drill: ScaleDrill)
        ensures
            drill@.names == table@.flatten(),
            drill@.next == 0,
            forall|row: int| 0 <= row < table@.len() ==> (#[trigger] table@[row]).len()
                == drill@.columns,
    {
        let rows = table.rows();
        let columns = table.columns();
        let mut names: Vec<String> = Vec::new();
        let mut row: usize = 0;
        proof {
            assert(table@.subrange(0, 0) =~= Seq::<Seq<Seq<char>>>::empty());
        }
        while row < rows
            invariant
                row <= rows,
                rows == table@.len(),
                forall|r: int| 0 <= r < table@.len() ==> (#[trigger] table@[r]).len() == columns,
                names@.map_values(|name: String| name@) == table@.subrange(
                    0,
                    row as int,
                ).flatten(),
            decreases rows - row,
        {
            let ghost done = names@.map_values(|name: String| name@);
            let mut column: usize = 0;
            while column < columns
                invariant
                    column <= columns,
                    row < rows,
                    rows == table@.len(),
                    table@[row as int].len() == columns,
                    names@.map_values(|name: String| name@) == done + table@[row as int].subrange(
                        0,
                        column as int,
                    ),
                decreases columns - column,
            {
                let ghost before = names@.map_values(|name: String| name@);
                names.push(table.cell(row, column));
                assert(names@.map_values(|name: String| name@) =~= before.push(
                    table@[row as int][column as int],
                ));
                assert(done + table@[row as int].subrange(0, column + 1) =~= before.push(
                    table@[row as int][column as int],
                ));
                column += 1;
            }
            proof {
                let upto = table@.subrange(0, row as int);
                assert(table@[row as int].subrange(0, columns as int) =~= table@[row as int]);
                upto.lemma_flatten_push(table@[row as int]);
                assert(upto.push(table@[row as int]) =~= table@.subrange(0, row + 1));
            }
            row += 1;
        }
        assert(table@.subrange(0, rows as int) =~= table@);
        ScaleDrill { names, columns, next: 0 }
    }

    /// How many notes are still to be played.
    pub fn remaining(&self) -> (count: usize)
        ensures
            count == self@.queue().len(),
            self@.next <= self@.names.len(),
    {
        proof {
            use_type_invariant(self);
        }
        self.names.len() - self.next
    }

    /// Whether every note has been played.
    pub fn is_complete(&self) -> (done: bool)
        ensures
            done == (self@.queue().len() == 0),
    {
        self.remaining() == 0
    }

    /// The name of the note due, if any is left.
    pub fn current(&self) -> (due: Option<&String>)
        ensures
            match due {
                Some(name) => self@.queue().len() > 0 && name@ == self@.queue()[0],
                None => self@.queue().len() == 0,
            },
    {
        proof {
            use_type_invariant(self);
        }
        if self.next < self.names.len() {
            Some(&self.names[self.next])
        } else {
            None
        }
    }

    /// Scale and note within it at which the drill stands, both counted
    /// from zero.
    pub fn position(&self) -> (place: (usize, usize))
        ensures
            place.0 == self@.place().0,
            place.1 == self@.place().1,
    {
        if self.columns == 0 {
            (0, self.next)
        } else {
            (self.next / self.columns, self.next % self.columns)
        }
    }

    /// Judges a played note against the note due. The right note moves the
    /// drill on by one; any other leaves it where it is. With no note due,
    /// or none played, there is nothing to judge.
    pub fn judge(&mut self, played: Option<u8>) -> (feedback: ScaleFeedback)
        ensures
            feedback == scale_judged(old(self)@.queue(), played),
            final(self)@ == old(self)@.after(played),
            final(self)@.queue() == scale_queue_after(old(self)@.queue(), played),
    {
        proof {
            use_type_invariant(&*self);
        }
        if self.next >= self.names.len() {
            return ScaleFeedback::Nothing;
        }
        match played {
            Some(note) => {
                if note_matches(note, self.names[self.next].as_str()) {
                    assert(self@.names.skip(self.next as int).drop_first() =~= self@.names.skip(
                        self.next + 1,
                    ));
                    self.next = self.next + 1;
                    ScaleFeedback::Right
                } else {
                    ScaleFeedback::Wrong(note)
                }
            },
            None => ScaleFeedback::Nothing,
        }
    }

    /// One turn of the drill loop at time `now`: polls the tracker through
    /// the debounce gate and judges the note pressed last among those it
    /// hands over. A finished drill leaves the tracker alone.
    pub fn step(&mut self, tracker: &mut KeyState, now: u64, debounce: u64) -> (feedback:
        ScaleFeedback)
        ensures
            feedback == scale_stepped(old(self)@.queue(), old(tracker)@, now, debounce),
            final(self)@.queue() == (match old(tracker)@.stable_snapshot(now, debounce) {
                Some(held) => scale_queue_after(old(self)@.queue(), last_pressed(held)),
                None => old(self)@.queue(),
            }),
            final(tracker)@ == (if old(self)@.queue().len() == 0 {
                old(tracker)@
            } else {
                old(tracker)@.polled(now, debounce)
            }),
    {
        if self.is_complete() {
            return ScaleFeedback::Nothing;
        }
        match tracker.poll(now, debounce) {
            Some(held) => {
                let played = if held.len() > 0 {
                    Some(held[held.len() - 1])
                } else {
                    None
                };
                self.judge(played)
            },
            None => ScaleFeedback::Nothing,
        }
    }
}

/// What one turn of the drill loop says: nothing while the drill is
/// finished or the keys have not settled, else the judgment of the note
/// pressed last.
pub open spec fn scale_stepped(
    queue: Seq<Seq<char>>,
    tracker: KeyStateView,
    now: u64,
    debounce: u64,
) -> ScaleFeedback {
    if queue.len() == 0 {
        ScaleFeedback::Nothing
    } else {
        match tracker.stable_snapshot(now, debounce) {
            Some(held) => scale_judged(queue, last_pressed(held)),
            None => ScaleFeedback::Nothing,
        }
    }
}

/// A run of played notes shortens the queue by exactly the number of right
/// ones, whatever else was played in between. So a drill of N notes is
/// finished after exactly N right notes.
pub proof fn lemma_scale_queue_exhaustion(queue: Seq<Seq<char>>, played: Seq<Option<u8>>)
    ensures
        right_among(queue, played) <= queue.len(),
        scale_queue_after_all(queue, played) == queue.skip(right_among(queue, played) as int),
        scale_queue_after_all(queue, played).len() == 0 <==> right_among(queue, played)
            == queue.len(),
    decreases played.len(),
{
    if played.len() == 0 {
        assert(queue.skip(0) =~= queue);
    } else {
        let next = scale_queue_after(queue, played[0]);
        lemma_scale_queue_exhaustion(next, played.drop_first());
        let later = right_among(next, played.drop_first());
        if scale_judged(queue, played[0]) == ScaleFeedback::Right {
            assert(queue.drop_first().skip(later as int) =~= queue.skip(later as int + 1));
        }
    }
}

} // verus!
