//! The key-state tracker: which notes are down, in the order they were
//! pressed, and when that last changed.
//!
//! Times are milliseconds on a clock of the caller's choosing. The tracker
//! is a plain value: whoever shares it between the event source and the
//! drill loop guards it with a lock and hands in the current time.

use vstd::prelude::*;

verus! {

/// A release arrived for a note that was not held.
#[derive(Debug, Copy, Clone, PartialEq, Eq, Structural)]
pub struct UnknownNoteError {
    pub note: u8,
}

/// Status byte of a message that reports a key going down.
pub const NOTE_ON: u8 = 0x90;

/// Status byte of a message that reports a key being let go.
pub const NOTE_OFF: u8 = 0x80;

/// What a message from the input device says about the keys.
#[derive(Debug, Copy, Clone, PartialEq, Eq, Structural)]
pub enum KeyEvent {
    /// A key went down.
    Press(u8),
    /// A key was let go.
    Release(u8),
    /// Nothing about the keys.
    Other,
}

/// What a message says: a status byte `NOTE_ON` or `NOTE_OFF` followed by a
/// note number is a press or a release of that note; any other message,
/// also one too short to carry a note, says nothing about the keys.
pub open spec fn decode_spec(msg: Seq<u8>) -> KeyEvent {
    if msg.len() >= 2 && msg[0] == NOTE_ON {
        KeyEvent::Press(msg[1])
    } else if msg.len() >= 2 && msg[0] == NOTE_OFF {
        KeyEvent::Release(msg[1])
    } else {
        KeyEvent::Other
    }
}

/// How the input port is settled on, given how many the device layer
/// offers.
#[derive(Debug, Copy, Clone, PartialEq, Eq, Structural)]
pub enum PortPlan {
    /// There is no port to read from.
    NoPort,
    /// There is one port: it is taken without asking.
    TakeOnly,
    /// There are several ports: the player is asked.
    AskPlayer,
}

/// Settles how the input port is chosen among `port_count` ports.
pub fn plan_port(port_count: usize) -> (plan: PortPlan)
    ensures
        plan == (if port_count == 0 {
            PortPlan::NoPort
        } else if port_count == 1 {
            PortPlan::TakeOnly
        } else {
            PortPlan::AskPlayer
        }),
{
    match port_count {
        0 => PortPlan::NoPort,
        1 => PortPlan::TakeOnly,
        _ => PortPlan::AskPlayer,
    }
}

/// The test that every note but `note` passes.
pub open spec fn other_than(note: u8) -> spec_fn(u8) -> bool {
    |held: u8| held != note
}

/// What a `KeyState` holds.
pub struct KeyStateView {
    /// The notes that are down, in press order.
    pub held: Seq<u8>,
    /// When the held notes last changed, unless that change was consumed.
    pub last_change: Option<u64>,
}

impl KeyStateView {
    /// The state after `note` is pressed at time `now`.
    pub open spec fn pressed(self, note: u8, now: u64) -> KeyStateView {
        KeyStateView {
            held: if self.held.contains(note) {
                self.held
            } else {
                self.held.push(note)
            },
            last_change: Some(now),
        }
    }

    /// The state after the held note `note` is released at time `now`: the
    /// other notes stay, in their press order.
    pub open spec fn released(self, note: u8, now: u64) -> KeyStateView {
        KeyStateView { held: self.held.filter(other_than(note)), last_change: Some(now) }
    }

    /// Whether `event` changes this state: a press always counts, a release
    /// only of a note that is held.
    pub open spec fn changed_by(self, event: KeyEvent) -> bool {
        match event {
            KeyEvent::Press(_) => true,
            KeyEvent::Release(note) => self.held.contains(note),
            KeyEvent::Other => false,
        }
    }

    /// The state after `event` arrives at time `now`; an event that does not
    /// change the state leaves it as it is.
    pub open spec fn after(self, event: KeyEvent, now: u64) -> KeyStateView {
        match event {
            KeyEvent::Press(note) => self.pressed(note, now),
            KeyEvent::Release(note) => if self.held.contains(note) {
                self.released(note, now)
            } else {
                self
            },
            KeyEvent::Other => self,
        }
    }

    /// Whether the held notes have been left alone for longer than
    /// `debounce` since their last change, and that change has not been
    /// consumed yet.
    pub open spec fn settled(self, now: u64, debounce: u64) -> bool {
        self.last_change matches Some(changed) && now - changed > debounce
    }

    /// The state after its last change has been consumed.
    pub open spec fn consumed(self) -> KeyStateView {
        KeyStateView { held: self.held, last_change: None }
    }

    /// The state after a poll at time `now`: a settled state is consumed,
    /// any other is left as it is.
    pub open spec fn polled(self, now: u64, debounce: u64) -> KeyStateView {
        if self.settled(now, debounce) {
            self.consumed()
        } else {
            self
        }
    }

    /// What a poll at time `now` hands over for judgment: the held notes of
    /// a settled state, and nothing otherwise.
    pub open spec fn stable_snapshot(self, now: u64, debounce: u64) -> Option<Seq<u8>> {
        if self.settled(now, debounce) {
            Some(self.held)
        } else {
            None
        }
    }
}

/// The notes currently held and the time of the last change to them.
pub struct KeyState {
    held: Vec<u8>,
    last_change: Option<u64>,
}

impl View for KeyState {
    type V = KeyStateView;

    closed spec fn view(&self) -> KeyStateView {
        KeyStateView { held: self.held@, last_change: self.last_change }
    }
}

impl KeyState {
    #[verifier::type_invariant]
    spec fn no_note_twice(self) -> bool {
        self.held@.no_duplicates()
    }

    /// A tracker with no note held and no change recorded.
    pub fn new() -> (state: KeyState)
        ensures
            state@.held == Seq::<u8>::empty(),
            state@.last_change is None,
    {
        KeyState { held: Vec::new(), last_change: None }
    }

    /// The position of `note` among the held notes.
    fn position(&self, note: u8) -> (at: Option<usize>)
        ensures
            match at {
                Some(i) => i < self@.held.len() && self@.held[i as int] == note,
                None => !self@.held.contains(note),
            },
    {
        let mut i: usize = 0;
        while i < self.held.len()
            invariant
                i <= self.held.len(),
                forall|j: int| 0 <= j < i ==> self.held@[j] != note,
            decreases self.held.len() - i,
        {
            if self.held[i] == note {
                return Some(i);
            }
            i += 1;
        }
        None
    }

    /// Records that `note` went down at time `now`. A note that is already
    /// held keeps its place; the time is recorded either way.
    pub fn note_on(&mut self, note: u8, now: u64)
        ensures
            final(self)@ == old(self)@.pressed(note, now),
            final(self)@.held.no_duplicates(),
    {
        proof {
            use_type_invariant(&*self);
        }
        if self.position(note).is_none() {
            let mut held = self.held.clone();
            held.push(note);
            self.held = held;
        }
        self.last_change = Some(now);
    }

    /// Records that `note` was let go at time `now`. A note that is not
    /// held is an error, and the tracker is left as it was.
    pub fn note_off(&mut self, note: u8, now: u64) -> (outcome: Result<(), UnknownNoteError>)
        ensures
            old(self)@.held.contains(note) ==> outcome is Ok && final(self)@ == old(self)@.released(
                note,
                now,
            ),
            !old(self)@.held.contains(note) ==> outcome == Err::<(), UnknownNoteError>(
                UnknownNoteError { note },
            ) && final(self)@ == old(self)@,
            final(self)@.held.no_duplicates(),
            !final(self)@.held.contains(note),
    {
        proof {
            use_type_invariant(&*self);
        }
        match self.position(note) {
            Some(at) => {
                let ghost before = self.held@;
                proof {
                    lemma_filter_skips(before, note, at as int);
                }
                let mut held = self.held.clone();
                held.remove(at);
                self.held = held;
                self.last_change = Some(now);
                assert(self.held@ == before.remove(at as int));
                Ok(())
            },
            None => Err(UnknownNoteError { note }),
        }
    }

    /// The held notes in press order, and the time of their last change.
    pub fn snapshot(&self) -> (state: (Vec<u8>, Option<u64>))
        ensures
            state.0@ == self@.held,
            state.1 == self@.last_change,
            state.0@.no_duplicates(),
    {
        proof {
            use_type_invariant(self);
        }
        (self.held.clone(), self.last_change)
    }

    /// The note that was pressed last among those still held.
    pub fn last_held(&self) -> (note: Option<u8>)
        ensures
            note == (if self@.held.len() > 0 {
                Some(self@.held.last())
            } else {
                None
            }),
    {
        if self.held.len() > 0 {
            Some(self.held[self.held.len() - 1])
        } else {
            None
        }
    }

    /// Forgets the time of the last change: the current state has been
    /// consumed.
    pub fn clear_last_change(&mut self)
        ensures
            final(self)@ == old(self)@.consumed(),
    {
        proof {
            use_type_invariant(&*self);
        }
        self.last_change = None;
    }

    /// Whether the held notes have been left alone for longer than
    /// `debounce` milliseconds at time `now`.
    pub fn is_settled(&self, now: u64, debounce: u64) -> (settled: bool)
        ensures
            settled == self@.settled(now, debounce),
    {
        match self.last_change {
            Some(changed) => now > changed && now - changed > debounce,
            None => false,
        }
    }

    /// The debounce gate. Once the held notes have been left alone for
    /// longer than `debounce` milliseconds, the change is consumed and the
    /// held notes are handed over; until then, and after that until the next
    /// change, nothing is.
    pub fn poll(&mut self, now: u64, debounce: u64) -> (stable: Option<Vec<u8>>)
        ensures
            final(self)@ == old(self)@.polled(now, debounce),
            match stable {
                Some(notes) => old(self)@.stable_snapshot(now, debounce) == Some(notes@),
                None => old(self)@.stable_snapshot(now, debounce) is None,
            },
    {
        proof {
            use_type_invariant(&*self);
        }
        if self.is_settled(now, debounce) {
            self.last_change = None;
            Some(self.held.clone())
        } else {
            None
        }
    }
}

/// Reads a message from the input device.
pub fn decode(msg: &[u8]) -> (event: KeyEvent)
    ensures
        event == decode_spec(msg@),
{
    if msg.len() < 2 {
        KeyEvent::Other
    } else if msg[0] == NOTE_ON {
        KeyEvent::Press(msg[1])
    } else if msg[0] == NOTE_OFF {
        KeyEvent::Release(msg[1])
    } else {
        KeyEvent::Other
    }
}

/// Applies a message from the input device, received at time `now`, to the
/// tracker. A release of a note that is not held is reported and changes
/// nothing; a message that is neither press nor release is passed over.
pub fn process_msg(state: &mut KeyState, msg: &[u8], now: u64) -> (outcome: Result<
    (),
    UnknownNoteError,
>)
    ensures
        final(state)@ == old(state)@.after(decode_spec(msg@), now),
        match decode_spec(msg@) {
            KeyEvent::Release(note) if !old(state)@.held.contains(note) => outcome == Err::<
                (),
                UnknownNoteError,
            >(UnknownNoteError { note }),
            _ => outcome is Ok,
        },
        final(state)@.held.no_duplicates(),
{
    match decode(msg) {
        KeyEvent::Press(note) => {
            state.note_on(note, now);
            Ok(())
        },
        KeyEvent::Release(note) => state.note_off(note, now),
        KeyEvent::Other => {
            proof {
                use_type_invariant(&*state);
            }
            Ok(())
        },
    }
}

/// A release takes exactly the released note out of the held notes: the
/// note is gone, every other note is still there, and there is one note
/// less.
pub proof fn lemma_release_takes_one_note(state: KeyStateView, note: u8, now: u64)
    requires
        state.held.no_duplicates(),
        state.held.contains(note),
    ensures
        !state.released(note, now).held.contains(note),
        state.released(note, now).held.len() == state.held.len() - 1,
        forall|other: u8|
            other != note ==> state.released(note, now).held.contains(other)
                == state.held.contains(other),
        state.released(note, now).held.no_duplicates(),
{
    let at = state.held.index_of(note);
    let rest = state.held.remove(at);
    lemma_filter_skips(state.held, note, at);
    assert forall|other: u8| other != note implies rest.contains(other) == state.held.contains(
        other,
    ) by {
        if state.held.contains(other) {
            let i = state.held.index_of(other);
            if i < at {
                assert(rest[i] == other);
            } else {
                assert(rest[i - 1] == other);
            }
        }
        if rest.contains(other) {
            let i = rest.index_of(other);
            if i < at {
                assert(state.held[i] == other);
            } else {
                assert(state.held[i + 1] == other);
            }
        }
    }
    if rest.contains(note) {
        let i = rest.index_of(note);
        if i < at {
            assert(state.held[i] == note);
        } else {
            assert(state.held[i + 1] == note);
        }
    }
}

/// Filtering a note out of notes that hold it once, at `at`, removes the
/// entry at `at`.
proof fn lemma_filter_skips(held: Seq<u8>, note: u8, at: int)
    requires
        held.no_duplicates(),
        0 <= at < held.len(),
        held[at] == note,
    ensures
        held.filter(other_than(note)) == held.remove(at),
    decreases held.len(),
{
    reveal(Seq::filter);
    let front = held.drop_last();
    if at == held.len() - 1 {
        assert forall|i: int| 0 <= i < front.len() implies front[i] != note by {
            assert(held[i] != held[at]);
        }
        lemma_filter_keeps_all(front, note);
        assert(held.remove(at) =~= front);
    } else {
        lemma_filter_skips(front, note, at);
        assert(held.last() != held[at]);
        assert(held.remove(at) =~= front.remove(at).push(held.last()));
    }
}

/// Filtering a note out of notes that do not hold it changes nothing.
proof fn lemma_filter_keeps_all(held: Seq<u8>, note: u8)
    requires
        forall|i: int| 0 <= i < held.len() ==> held[i] != note,
    ensures
        held.filter(other_than(note)) == held,
    decreases held.len(),
{
    reveal(Seq::filter);
    if held.len() > 0 {
        lemma_filter_keeps_all(held.drop_last(), note);
        assert(held.drop_last().push(held.last()) =~= held);
    }
}

/// The recorded time is that of the latest change: an event that changes
/// the state records its own time, so with a clock that does not run
/// backwards the recorded time never does either.
pub proof fn lemma_last_change_is_latest(state: KeyStateView, event: KeyEvent, now: u64)
    requires
        state.changed_by(event),
    ensures
        state.after(event, now).last_change == Some(now),
        state.last_change is Some && state.last_change.unwrap() <= now ==> state.after(
            event,
            now,
        ).last_change.unwrap() >= state.last_change.unwrap(),
{
}

/// The debounce gate judges rolled input once. After two changes in a row,
/// nothing is handed over for judgment until more than `debounce` has
/// passed since the second, no matter how long ago the first was; then the
/// notes held after both changes are handed over; and after that nothing is
/// handed over again until the keys change.
pub proof fn lemma_debounce_gate(
    state: KeyStateView,
    first: KeyEvent,
    first_at: u64,
    second: KeyEvent,
    second_at: u64,
    now: u64,
    later: u64,
    debounce: u64,
)
    requires
        state.changed_by(first),
        state.after(first, first_at).changed_by(second),
    ensures
        ({
            let rolled = state.after(first, first_at).after(second, second_at);
            &&& now - second_at <= debounce ==> {
                &&& rolled.stable_snapshot(now, debounce) is None
                &&& rolled.polled(now, debounce) == rolled
            }
            &&& now - second_at > debounce ==> {
                &&& rolled.stable_snapshot(now, debounce) == Some(rolled.held)
                &&& rolled.polled(now, debounce).held == rolled.held
                &&& rolled.polled(now, debounce).stable_snapshot(later, debounce) is None
            }
        }),
{
}

} // verus!
