//! The streaming responder: a result set turned into a sequence of notes
//! for a consumer that may be slow, or leave.
//!
//! The responder does not send. The driver hands each note it is given to a
//! bounded channel of `STREAM_CAPACITY` places, waits for room there, and
//! reports whether the consumer is still listening.

use crate::note::{Note, NoteView, note_views};
use crate::row::{RawRow, RawRowView, RowError, map_row, note_of, row_views};
use vstd::prelude::*;

verus! {

/// The number of notes that may wait between the responder and a slow
/// consumer. It bounds memory and does not depend on the size of the result
/// set.
pub const STREAM_CAPACITY: usize = 128;

/// What the driver reports before it asks for the next note.
#[derive(Clone, Copy, Debug, PartialEq, Eq, Structural)]
pub enum Signal {
    /// The consumer took, or can take, what was sent so far.
    Ready,
    /// The consumer is gone: the last send failed.
    Gone,
}

/// What the driver is to do next.
#[derive(Clone, Debug, PartialEq, Eq)]
pub enum Emit {
    /// Send this note to the consumer.
    Send { note: Note },
    /// Close the channel: the stream has ended.
    Close,
}

/// The mathematical value of an [`Emit`].
pub enum EmitView {
    Send { note: NoteView },
    Close,
}

impl View for Emit {
    type V = EmitView;

    open spec fn view(&self) -> EmitView {
        match self {
            Emit::Send { note } => EmitView::Send { note: note@ },
            Emit::Close => EmitView::Close,
        }
    }
}

/// A result set that is being streamed.
pub struct Responder {
    rows: Vec<RawRow>,
    next: usize,
    closed: bool,
}

/// The mathematical value of a [`Responder`]: the rows of the result set,
/// how many of them have been turned into notes, and whether the stream has
/// ended.
pub struct ResponderView {
    pub rows: Seq<RawRowView>,
    pub next: nat,
    pub closed: bool,
}

/// Whether the row at position `i` maps to a note.
pub open spec fn maps_at(rows: Seq<RawRowView>, i: int) -> bool {
    map_row(Some(rows[i])) is Ok
}

/// The position of the first row at or after `from` that does not map to a
/// note, or the number of rows if every one of them maps.
pub open spec fn first_failure(rows: Seq<RawRowView>, from: int) -> int
    decreases rows.len() - from,
{
    if from < 0 || from >= rows.len() {
        rows.len() as int
    } else if maps_at(rows, from) {
        first_failure(rows, from + 1)
    } else {
        from
    }
}

/// The notes that a result set streams to a consumer that stays: those of
/// the rows before the first one that does not map, in the order of the
/// rows. No note is sent for the failing row or for any row after it.
pub open spec fn streamed(rows: Seq<RawRowView>) -> Seq<NoteView> {
    Seq::new(first_failure(rows, 0) as nat, |i: int| note_of(rows[i]))
}

impl ResponderView {
    /// The notes that are still to come for a consumer that stays: none
    /// once the stream has ended, and otherwise those of the rows from the
    /// cursor up to the first row that does not map.
    pub open spec fn pending(self) -> Seq<NoteView> {
        if self.closed {
            Seq::empty()
        } else {
            Seq::new(
                (first_failure(self.rows, self.next as int) - self.next) as nat,
                |i: int| note_of(self.rows[self.next + i]),
            )
        }
    }

    /// The cursor lies within the result set.
    pub open spec fn well_formed(self) -> bool {
        self.next <= self.rows.len()
    }

    /// The same stream, ended.
    pub open spec fn close(self) -> ResponderView {
        ResponderView { rows: self.rows, next: self.next, closed: true }
    }

    /// The transition function: the next state and what to do, for a state
    /// and the driver's report.
    ///
    /// A stream that has ended stays ended. The stream ends when the
    /// consumer is gone, when every row has been sent, and when the next row
    /// does not map to a note; nothing is sent for that row. Otherwise the
    /// next row's note is sent.
    pub open spec fn poll(self, signal: Signal) -> (ResponderView, EmitView) {
        if self.closed || signal == Signal::Gone || self.next >= self.rows.len() {
            (self.close(), EmitView::Close)
        } else {
            match map_row(Some(self.rows[self.next as int])) {
                Ok(note) => (
                    ResponderView { rows: self.rows, next: self.next + 1, closed: false },
                    EmitView::Send { note },
                ),
                Err(_) => (self.close(), EmitView::Close),
            }
        }
    }
}

/// `first_failure` is the one position at or after `from` that is the end of
/// the rows or a row that does not map, with only mapping rows before it.
pub proof fn lemma_first_failure(rows: Seq<RawRowView>, from: int, k: int)
    requires
        0 <= from <= k <= rows.len(),
        forall|i: int| from <= i < k ==> maps_at(rows, i),
        k == rows.len() || !maps_at(rows, k),
    ensures
        first_failure(rows, from) == k,
    decreases k - from,
{
    if from < k {
        assert(maps_at(rows, from));
        lemma_first_failure(rows, from + 1, k);
    }
}

/// Where `first_failure` points: at the end of the rows or at a row that
/// does not map, past rows that all map.
pub proof fn lemma_first_failure_found(rows: Seq<RawRowView>, from: int)
    requires
        0 <= from <= rows.len(),
    ensures
        from <= first_failure(rows, from) <= rows.len(),
        first_failure(rows, from) < rows.len() ==> !maps_at(rows, first_failure(rows, from)),
        forall|i: int| from <= i < first_failure(rows, from) ==> maps_at(rows, i),
    decreases rows.len() - from,
{
    if from < rows.len() && maps_at(rows, from) {
        lemma_first_failure_found(rows, from + 1);
    }
}

/// What is streamed: a note for each row before the first that does not
/// map, in the order of the rows, and all of them where every row maps.
pub proof fn lemma_streamed(rows: Seq<RawRowView>)
    ensures
        streamed(rows).len() <= rows.len(),
        forall|i: int|
            0 <= i < streamed(rows).len() ==> map_row(Some(rows[i])) == Ok::<NoteView, RowError>(
                #[trigger] streamed(rows)[i],
            ),
        streamed(rows).len() < rows.len() ==> map_row(Some(rows[streamed(rows).len() as int]))
            is Err,
        (forall|i: int| 0 <= i < rows.len() ==> maps_at(rows, i)) ==> streamed(rows).len()
            == rows.len(),
{
    lemma_first_failure_found(rows, 0);
    assert forall|i: int| 0 <= i < streamed(rows).len() implies map_row(Some(rows[i])) == Ok::<
        NoteView,
        RowError,
    >(#[trigger] streamed(rows)[i]) by {
        assert(maps_at(rows, i));
    }
    if forall|i: int| 0 <= i < rows.len() ==> maps_at(rows, i) {
        lemma_first_failure(rows, 0, rows.len() as int);
    }
}

impl View for Responder {
    type V = ResponderView;

    closed spec fn view(&self) -> ResponderView {
        ResponderView { rows: row_views(self.rows@), next: self.next as nat, closed: self.closed }
    }
}

impl Responder {
    #[verifier::type_invariant]
    spec fn sound(self) -> bool {
        self@.well_formed()
    }

    /// A stream over the rows of a result set, of which nothing has been
    /// sent yet.
    pub fn new(rows: Vec<RawRow>) -> (responder: Responder)
        ensures
            responder@ == (ResponderView { rows: row_views(rows@), next: 0, closed: false }),
    {
        Responder { rows, next: 0, closed: false }
    }

    /// Takes the driver's report and says what to do next: the transition
    /// that `ResponderView::poll` defines.
    pub fn poll(self, signal: Signal) -> (next: (Responder, Emit))
        ensures
            (next.0@, next.1@) == self@.poll(signal),
            self@.well_formed(),
    {
        proof {
            use_type_invariant(&self);
        }
        let Responder { rows, next, closed } = self;
        let gone = match signal {
            Signal::Gone => true,
            Signal::Ready => false,
        };
        if closed || gone || next >= rows.len() {
            return (Responder { rows, next, closed: true }, Emit::Close);
        }
        match Note::try_from(Some(&rows[next])) {
            Ok(note) => (Responder { rows, next: next + 1, closed: false }, Emit::Send { note }),
            Err(_) => (Responder { rows, next, closed: true }, Emit::Close),
        }
    }

    /// Everything that the stream still sends to a consumer that stays
    /// until the end; for a fresh stream, `streamed` of its rows.
    pub fn drain(self) -> (notes: Vec<Note>)
        ensures
            note_views(notes@) == self@.pending(),
            self@.next == 0 && !self@.closed ==> note_views(notes@) == streamed(self@.rows),
    {
        proof {
            use_type_invariant(&self);
        }
        let ghost rows = self@.rows;
        let ghost start = self@.next as int;
        let ghost ended = self@.closed;
        let mut responder = self;
        let mut notes: Vec<Note> = Vec::new();
        loop
            invariant
                rows == self@.rows,
                start == self@.next,
                ended == self@.closed,
                responder@.rows == rows,
                responder@.closed == ended,
                ended ==> notes@.len() == 0,
                responder@.well_formed(),
                responder@.next == start + notes@.len(),
                forall|i: int|
                    0 <= i < notes@.len() ==> maps_at(rows, start + i) && (#[trigger] notes@[i])@
                        == note_of(rows[start + i]),
            decreases rows.len() - responder@.next,
        {
            let (next, emit) = responder.poll(Signal::Ready);
            responder = next;
            match emit {
                Emit::Send { note } => {
                    notes.push(note);
                },
                Emit::Close => {
                    proof {
                        if !ended {
                            assert forall|j: int| start <= j < start + notes@.len() implies maps_at(
                                rows,
                                j,
                            ) by {
                                assert(notes@[j - start]@ == note_of(rows[start + (j - start)]));
                            }
                            lemma_first_failure(rows, start, start + notes@.len());
                            assert forall|i: int| 0 <= i < notes@.len() implies note_views(
                                notes@,
                            )[i] == self@.pending()[i] by {
                                assert(notes@[i]@ == note_of(rows[start + i]));
                            }
                        }
                        assert(note_views(notes@) =~= self@.pending());
                        if start == 0 && !ended {
                            assert(self@.pending() =~= streamed(rows));
                        }
                    }
                    return notes;
                },
            }
        }
    }
}

} // verus!
