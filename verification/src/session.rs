//! The service run against the reference table: a unit of work driven from
//! its first action to its last, and the three operations on top of it.

use crate::ident::Identifier;
use crate::note::{Note, NoteId, NoteView, UserId, note_views};
use crate::operation::{FILLER_NOTES, Operation, OperationView};
use crate::row::{RawRowView, RowError, map_row, row_status};
use crate::service::{create_note, create_plan, delete_note, delete_plan, get_notes, list_plan};
use crate::statement::StatementView;
use crate::status::{Status, StatusView, StorageErrorView, status_of};
use crate::store::{
    Store, StoreView, StoredNoteView, exhausted_message, follows, fresh_note, lemma_apply_follows,
    lemma_follows_itself, lemma_follows_on, newest_first, revised, row_of, rows_of, stamped,
    without_user,
};
use crate::stream::{Responder, streamed};
use crate::timestamp::Timestamp;
use crate::transaction::{Action, ActionView, Event, PhaseView, Transaction, TransactionView};
use vstd::prelude::*;

verus! {

/// What a unit of work answers with.
#[derive(Clone, Debug, PartialEq, Eq)]
pub enum Reply {
    /// The note that was written.
    Note(Note),
    /// The notes that were listed.
    Notes(Vec<Note>),
}

/// The mathematical value of a [`Reply`].
pub enum ReplyView {
    Note(NoteView),
    Notes(Seq<NoteView>),
}

impl View for Reply {
    type V = ReplyView;

    open spec fn view(&self) -> ReplyView {
        match self {
            Reply::Note(note) => ReplyView::Note(note@),
            Reply::Notes(notes) => ReplyView::Notes(note_views(notes@)),
        }
    }
}

/// The view of the answer of a unit of work.
pub open spec fn answered(answer: Result<Reply, Status>) -> Result<ReplyView, StatusView> {
    match answer {
        Ok(reply) => Ok(reply@),
        Err(status) => Err(status@),
    }
}

/// The table after the first `k` steps of a unit of work, each run on what
/// the one before left, or the failure of the first step that failed.
pub open spec fn run_steps(store: StoreView, operation: OperationView, now: Timestamp, k: nat)
    -> Result<StoreView, StorageErrorView>
    decreases k,
{
    if k == 0 {
        Ok(store)
    } else {
        match run_steps(store, operation, now, (k - 1) as nat) {
            Err(error) => Err(error),
            Ok(before) => match before.apply(operation.step(k - 1).statement, now) {
                Err(error) => Err(error),
                Ok((after, _)) => Ok(after),
            },
        }
    }
}

/// The answer that the rows of the last step lead to: see
/// `TransactionView::conclude`.
pub open spec fn concluded(operation: OperationView, rows: Seq<RawRowView>) -> Result<
    ReplyView,
    StatusView,
> {
    if operation is List {
        Ok(ReplyView::Notes(streamed(rows)))
    } else if rows.len() == 0 {
        Err(row_status(RowError::NotFound))
    } else if rows.len() == 1 {
        match map_row(Some(rows[0])) {
            Ok(note) => Ok(ReplyView::Note(note)),
            Err(error) => Err(row_status(error)),
        }
    } else {
        Err(status_of(StorageErrorView::Other))
    }
}

/// What a unit of work makes of the table, and what it answers.
///
/// The steps run in order, each on what the one before left. If all of them
/// succeed and the rows of the last lead to an answer, the table is as the
/// last step left it. If a step fails or the rows lead to an error, the
/// table is as it was before the first step: the work is atomic.
pub open spec fn outcome(store: StoreView, operation: OperationView, now: Timestamp) -> (
    StoreView,
    Result<ReplyView, StatusView>,
) {
    let last = (operation.len() - 1) as nat;
    match run_steps(store, operation, now, last) {
        Err(error) => (store, Err(status_of(error))),
        Ok(before) => match before.apply(operation.step(last as int).statement, now) {
            Err(error) => (store, Err(status_of(error))),
            Ok((after, rows)) => match concluded(operation, rows) {
                Ok(reply) => (after, Ok(reply)),
                Err(status) => (store, Err(status)),
            },
        },
    }
}

/// A step that failed is the failure of every longer run.
pub proof fn lemma_failure_is_final(
    store: StoreView,
    operation: OperationView,
    now: Timestamp,
    k: nat,
    l: nat,
)
    requires
        k <= l,
        run_steps(store, operation, now, k) is Err,
    ensures
        run_steps(store, operation, now, l) == run_steps(store, operation, now, k),
    decreases l - k,
{
    if k < l {
        lemma_failure_is_final(store, operation, now, k, (l - 1) as nat);
    }
}

/// The steps of a unit of work leave a table that is well formed and
/// follows the one they began on.
pub proof fn lemma_run_steps_follow(
    store: StoreView,
    operation: OperationView,
    now: Timestamp,
    k: nat,
)
    requires
        store.well_formed(),
    ensures
        run_steps(store, operation, now, k) matches Ok(after) ==> after.well_formed() && follows(
            store,
            after,
        ),
    decreases k,
{
    if k == 0 {
        lemma_follows_itself(store);
    } else {
        lemma_run_steps_follow(store, operation, now, (k - 1) as nat);
        if let Ok(before) = run_steps(store, operation, now, (k - 1) as nat) {
            lemma_apply_follows(before, operation.step(k - 1).statement, now);
            if let Ok((after, _)) = before.apply(operation.step(k - 1).statement, now) {
                lemma_follows_on(store, before, after);
            }
        }
    }
}

/// How far a unit of work is from its end.
spec fn distance(tx: TransactionView) -> nat {
    match tx.phase {
        PhaseView::Idle => tx.operation.len() + 4,
        PhaseView::Acquiring => tx.operation.len() + 3,
        PhaseView::Beginning => tx.operation.len() + 2,
        PhaseView::Open { at } => if at < tx.operation.len() {
            (tx.operation.len() + 1 - at) as nat
        } else {
            1
        },
        PhaseView::Committing { .. } => 1,
        PhaseView::Committed => 0,
        PhaseView::RolledBack => 0,
    }
}

/// What holds between the actions of a unit of work that is run against
/// the table: where the work stands, what is to be done next, the table as
/// callers see it, and the table as the work sees it.
spec fn in_step(
    initial: StoreView,
    now: Timestamp,
    tx: TransactionView,
    action: ActionView,
    visible: StoreView,
    working: StoreView,
) -> bool {
    let operation = tx.operation;
    match tx.phase {
        PhaseView::Idle => false,
        PhaseView::Acquiring => action is Acquire && visible == initial && working == initial,
        PhaseView::Beginning => action is Begin && visible == initial && working == initial,
        PhaseView::Open { at } => {
            &&& at < operation.len()
            &&& action == (ActionView::Run { step: operation.step(at as int) })
            &&& visible == initial
            &&& run_steps(initial, operation, now, at) == Ok::<StoreView, StorageErrorView>(
                working,
            )
        },
        PhaseView::Committing { note } => {
            &&& action is Commit
            &&& visible == initial
            &&& outcome(initial, operation, now) == (working, Ok::<ReplyView, StatusView>(
                ReplyView::Note(note),
            ))
        },
        PhaseView::Committed => match action {
            ActionView::Reply { note } => outcome(initial, operation, now) == (
                visible,
                Ok::<ReplyView, StatusView>(ReplyView::Note(note)),
            ),
            ActionView::Stream { rows } => outcome(initial, operation, now) == (
                visible,
                Ok::<ReplyView, StatusView>(ReplyView::Notes(streamed(rows))),
            ),
            _ => false,
        },
        PhaseView::RolledBack => match action {
            ActionView::Fail { status } => outcome(initial, operation, now) == (
                visible,
                Err::<ReplyView, StatusView>(status),
            ),
            _ => false,
        },
    }
}

impl Store {
    /// Runs a unit of work against the table, at the instant `now`, from
    /// its first action to its last.
    ///
    /// The work sees its own writes; callers of the table see them once the
    /// work has committed, and never if it fails.
    pub fn serve(&mut self, operation: Operation, now: Timestamp) -> (answer: Result<
        Reply,
        Status,
    >)
        requires
            old(self)@.well_formed(),
        ensures
            final(self)@.well_formed(),
            (final(self)@, answered(answer)) == outcome(old(self)@, operation@, now),
            (final(self)@, answered(answer)) == effect(old(self)@, operation@, now),
    {
        proof {
            lemma_outcome_is_effect(self@, operation@, now);
        }
        let ghost initial = self@;
        let mut working = self.snapshot();
        let (first, start) = Transaction::new(operation).step(Event::Start);
        let mut tx = first;
        let mut action = start;
        loop
            invariant
                tx@.operation == operation@,
                tx@.well_formed(),
                initial == old(self)@,
                outcome(initial, operation@, now) == effect(initial, operation@, now),
                self@.well_formed(),
                working@.well_formed(),
                in_step(initial, now, tx@, action@, self@, working@),
            decreases distance(tx@),
        {
            let ghost before = tx@;
            let ghost seen = working@;
            let event = match action {
                Action::Acquire => Event::Acquired,
                Action::Begin => Event::Begun,
                Action::Run { step } => match working.execute(&step.statement, now) {
                    Ok(rows) => Event::Completed { rows },
                    Err(error) => {
                        proof {
                            let at = before.phase->Open_at;
                            assert(run_steps(initial, operation@, now, at + 1) is Err);
                            if at + 1 <= operation@.len() - 1 {
                                lemma_failure_is_final(
                                    initial,
                                    operation@,
                                    now,
                                    at + 1,
                                    (operation@.len() - 1) as nat,
                                );
                            }
                        }
                        Event::Failed { error }
                    },
                },
                Action::Commit => {
                    core::mem::swap(self, &mut working);
                    Event::Committed
                },
                Action::Reply { note } => {
                    return Ok(Reply::Note(note));
                },
                Action::Stream { rows } => {
                    return Ok(Reply::Notes(Responder::new(rows).drain()));
                },
                Action::Fail { status } => {
                    return Err(status);
                },
            };
            let (next, then) = tx.step(event);
            tx = next;
            action = then;
        }
    }
}

/// The notes that one create inserts: `count` notes of the user, all with
/// the same title, content and instant, under consecutive identifiers from
/// `first` on.
pub open spec fn batch(
    first: u128,
    count: nat,
    user_id: Identifier,
    title: Seq<char>,
    content: Seq<char>,
    now: Timestamp,
) -> Seq<StoredNoteView> {
    Seq::new(
        count,
        |i: int| fresh_note(Identifier { value: (first + i) as u128 }, user_id, title, content, now),
    )
}

/// What writing one note leads to: the table with the note at position `at`
/// replaced and the note as the caller sees it, or, where the note's row
/// does not map, the table as it was and the error of the row mapper.
pub open spec fn written(store: StoreView, at: int, note: StoredNoteView) -> (
    StoreView,
    Result<ReplyView, StatusView>,
) {
    match map_row(Some(row_of(note))) {
        Ok(seen) => (store.with_notes(store.notes.update(at, note)), Ok(ReplyView::Note(seen))),
        Err(error) => (store, Err(row_status(error))),
    }
}

/// What a unit of work makes of the table and what it answers, written out
/// for each kind of work.
///
/// A listing answers with the notes that the active notes of the user
/// stream, most recent first, and leaves the table alone. A replace and a
/// delete write the one note with the given id and owner, and are
/// `NotFound` where there is none. A create fails where the counter cannot
/// give an identifier to every filler note and to the note itself;
/// otherwise the notes of every other user stay, in their order, those of
/// the user are gone, and behind them stand the filler notes and last the
/// note that is returned.
pub open spec fn effect(store: StoreView, operation: OperationView, now: Timestamp) -> (
    StoreView,
    Result<ReplyView, StatusView>,
) {
    match operation {
        OperationView::List { user_id } => (
            store,
            Ok(ReplyView::Notes(streamed(rows_of(newest_first(store.notes, user_id))))),
        ),
        OperationView::Replace { id, user_id, title, content } => {
            let at = store.position(id, user_id);
            if at < store.notes.len() {
                written(store, at, revised(store.notes[at], title, content, now))
            } else {
                (store, Err(row_status(RowError::NotFound)))
            }
        },
        OperationView::Create { user_id, title, content } => {
            if store.next_id + FILLER_NOTES + 1 > u128::MAX {
                (
                    store,
                    Err(status_of(StorageErrorView::Database { message: exhausted_message() })),
                )
            } else {
                let made = batch(
                    store.next_id,
                    (FILLER_NOTES + 1) as nat,
                    user_id,
                    title,
                    content,
                    now,
                );
                match map_row(Some(row_of(made.last()))) {
                    Ok(seen) => (
                        StoreView {
                            notes: without_user(store.notes, user_id) + made,
                            next_id: (store.next_id + FILLER_NOTES + 1) as u128,
                        },
                        Ok(ReplyView::Note(seen)),
                    ),
                    Err(error) => (store, Err(row_status(error))),
                }
            }
        },
        OperationView::Delete { id, user_id } => {
            let at = store.position(id, user_id);
            if at < store.notes.len() {
                written(store, at, stamped(store.notes[at], now))
            } else {
                (store, Err(row_status(RowError::NotFound)))
            }
        },
    }
}

/// The table in the middle of a create: after the delete and the first
/// `made` inserts.
spec fn resetting(
    store: StoreView,
    user_id: Identifier,
    title: Seq<char>,
    content: Seq<char>,
    now: Timestamp,
    made: nat,
) -> StoreView {
    StoreView {
        notes: without_user(store.notes, user_id) + batch(
            store.next_id,
            made,
            user_id,
            title,
            content,
            now,
        ),
        next_id: (store.next_id + made) as u128,
    }
}

/// The steps of a create, one by one: as long as the counter lasts, the
/// table after the delete and `made` inserts is `resetting`.
proof fn lemma_create_steps(
    store: StoreView,
    user_id: Identifier,
    title: Seq<char>,
    content: Seq<char>,
    now: Timestamp,
    made: nat,
)
    requires
        made <= FILLER_NOTES + 1,
        store.next_id + made <= u128::MAX,
    ensures
        run_steps(store, OperationView::Create { user_id, title, content }, now, made + 1) == Ok::<
            StoreView,
            StorageErrorView,
        >(resetting(store, user_id, title, content, now, made)),
    decreases made,
{
    let operation = OperationView::Create { user_id, title, content };
    if made == 0 {
        assert(run_steps(store, operation, now, 0) == Ok::<StoreView, StorageErrorView>(store));
        assert(operation.step(0).statement == (StatementView::DeleteAll { user_id }));
        assert(resetting(store, user_id, title, content, now, 0).notes =~= without_user(
            store.notes,
            user_id,
        ));
    } else {
        let fewer = (made - 1) as nat;
        lemma_create_steps(store, user_id, title, content, now, fewer);
        let before = resetting(store, user_id, title, content, now, fewer);
        assert(operation.step(made as int).statement == (StatementView::Insert {
            title,
            content,
            user_id,
        }));
        assert(before.next_id < u128::MAX);
        assert(resetting(store, user_id, title, content, now, made).notes =~= before.notes.push(
            fresh_note(Identifier { value: before.next_id }, user_id, title, content, now),
        ));
    }
}

/// What a unit of work makes of the table and what it answers is what
/// `effect` writes out.
pub proof fn lemma_outcome_is_effect(store: StoreView, operation: OperationView, now: Timestamp)
    ensures
        outcome(store, operation, now) == effect(store, operation, now),
{
    match operation {
        OperationView::Create { user_id, title, content } => {
            let all = (FILLER_NOTES + 1) as nat;
            if store.next_id + all > u128::MAX {
                // The counter gives out at one of the inserts.
                let made = (u128::MAX - store.next_id) as nat;
                lemma_create_steps(store, user_id, title, content, now, made);
                let before = resetting(store, user_id, title, content, now, made);
                assert(before.next_id == u128::MAX);
                assert(operation.step(made as int + 1).statement == (StatementView::Insert {
                    title,
                    content,
                    user_id,
                }));
                if made + 1 < operation.len() - 1 {
                    assert(run_steps(store, operation, now, made + 2) is Err);
                    lemma_failure_is_final(
                        store,
                        operation,
                        now,
                        made + 2,
                        (operation.len() - 1) as nat,
                    );
                }
            } else {
                lemma_create_steps(store, user_id, title, content, now, FILLER_NOTES as nat);
                let before = resetting(store, user_id, title, content, now, FILLER_NOTES as nat);
                let made = batch(store.next_id, all, user_id, title, content, now);
                assert(operation.step(FILLER_NOTES + 1).statement == (StatementView::Insert {
                    title,
                    content,
                    user_id,
                }));
                assert(before.notes.push(made.last()) =~= without_user(store.notes, user_id)
                    + made);
            }
        },
        _ => {
            assert(run_steps(store, operation, now, 0) == Ok::<StoreView, StorageErrorView>(store));
        },
    }
}

/// The view of the outcome of listing.
pub open spec fn listed(answer: Result<Vec<Note>, Status>) -> Result<Seq<NoteView>, StatusView> {
    match answer {
        Ok(notes) => Ok(note_views(notes@)),
        Err(status) => Err(status@),
    }
}

/// The view of the outcome of writing a note.
pub open spec fn noted(answer: Result<Note, Status>) -> Result<NoteView, StatusView> {
    match answer {
        Ok(note) => Ok(note@),
        Err(status) => Err(status@),
    }
}

/// The notes of an answer that lists.
pub open spec fn notes_of(answer: Result<ReplyView, StatusView>) -> Result<
    Seq<NoteView>,
    StatusView,
> {
    match answer {
        Ok(ReplyView::Notes(notes)) => Ok(notes),
        Ok(ReplyView::Note(_)) => Err(status_of(StorageErrorView::Other)),
        Err(status) => Err(status),
    }
}

/// The note of an answer that writes.
pub open spec fn note_in(answer: Result<ReplyView, StatusView>) -> Result<NoteView, StatusView> {
    match answer {
        Ok(ReplyView::Note(note)) => Ok(note),
        Ok(ReplyView::Notes(_)) => Err(status_of(StorageErrorView::Other)),
        Err(status) => Err(status),
    }
}

/// What listing the notes of a user answers on a table: `InvalidArgument`
/// for a malformed `user_id`, and otherwise what the listing gives.
pub open spec fn listing(store: StoreView, user_id: Seq<char>) -> Result<
    Seq<NoteView>,
    StatusView,
> {
    match list_plan(user_id) {
        Err(status) => Err(status),
        Ok(operation) => notes_of(effect(store, operation, Timestamp { nanos: 0 }).1),
    }
}

/// What creating or replacing a note makes of a table, and what it
/// answers: `InvalidArgument` for a malformed identifier, with the table
/// untouched, and otherwise what the create or the replace gives.
pub open spec fn creation(store: StoreView, note: NoteView, now: Timestamp) -> (
    StoreView,
    Result<NoteView, StatusView>,
) {
    match create_plan(note) {
        Err(status) => (store, Err(status)),
        Ok(operation) => (
            effect(store, operation, now).0,
            note_in(effect(store, operation, now).1),
        ),
    }
}

/// What deleting a note makes of a table, and what it answers:
/// `InvalidArgument` for a malformed identifier, with the table untouched,
/// and otherwise what the delete gives.
pub open spec fn deletion(
    store: StoreView,
    note_id: Seq<char>,
    user_id: Seq<char>,
    now: Timestamp,
) -> (StoreView, Result<NoteView, StatusView>) {
    match delete_plan(note_id, user_id) {
        Err(status) => (store, Err(status)),
        Ok(operation) => (
            effect(store, operation, now).0,
            note_in(effect(store, operation, now).1),
        ),
    }
}

impl Store {
    /// Lists the notes of a user: validation, the query, and the stream of
    /// its rows as a consumer that stays would see it.
    pub fn list_notes(&self, request: &UserId) -> (answer: Result<Vec<Note>, Status>)
        requires
            self@.well_formed(),
        ensures
            listed(answer) == listing(self@, request.user_id@),
    {
        let operation = get_notes(request)?;
        proof {
            lemma_outcome_is_effect(self@, operation@, Timestamp { nanos: 0 });
        }
        let mut table = self.snapshot();
        match table.serve(operation, Timestamp { nanos: 0 }) {
            Ok(Reply::Notes(notes)) => Ok(notes),
            Ok(Reply::Note(_)) => Err(Status::unknown()),
            Err(status) => Err(status),
        }
    }

    /// Creates a note, or replaces title and content of an existing one, at
    /// the instant `now`.
    pub fn create_or_replace_note(&mut self, request: &Note, now: Timestamp) -> (answer: Result<
        Note,
        Status,
    >)
        requires
            old(self)@.well_formed(),
        ensures
            final(self)@.well_formed(),
            (final(self)@, noted(answer)) == creation(old(self)@, request@, now),
    {
        let operation = create_note(request)?;
        proof {
            lemma_outcome_is_effect(self@, operation@, now);
        }
        match self.serve(operation, now) {
            Ok(Reply::Note(note)) => Ok(note),
            Ok(Reply::Notes(_)) => Err(Status::unknown()),
            Err(status) => Err(status),
        }
    }

    /// Soft-deletes a note at the instant `now`.
    pub fn delete_note(&mut self, request: &NoteId, now: Timestamp) -> (answer: Result<
        Note,
        Status,
    >)
        requires
            old(self)@.well_formed(),
        ensures
            final(self)@.well_formed(),
            (final(self)@, noted(answer)) == deletion(
                old(self)@,
                request.note_id@,
                request.user_id@,
                now,
            ),
    {
        let operation = delete_note(request)?;
        proof {
            lemma_outcome_is_effect(self@, operation@, now);
        }
        match self.serve(operation, now) {
            Ok(Reply::Note(note)) => Ok(note),
            Ok(Reply::Notes(_)) => Err(Status::unknown()),
            Err(status) => Err(status),
        }
    }
}

} // verus!
