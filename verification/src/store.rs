//! A reference model of the `notes` table: what each statement of the
//! service means on a table held in memory.
//!
//! The model fixes what the service relies on in storage. Identifiers are
//! assigned from a counter, so that none is ever used twice; the instant of
//! a write is given by the caller; rows that tie on `created` are listed in
//! the order in which they were inserted.

use crate::ident::Identifier;
use crate::row::{Field, RawRow, RawRowView, row_views};
use crate::statement::{Statement, StatementView};
use crate::status::{StorageError, StorageErrorView};
use crate::timestamp::Timestamp;
use vstd::prelude::*;

verus! {

/// A note as the table holds it.
#[derive(Clone, Debug, PartialEq, Eq)]
pub struct StoredNote {
    pub id: Identifier,
    pub user_id: Identifier,
    pub created: Timestamp,
    pub updated: Timestamp,
    pub deleted: Option<Timestamp>,
    pub title: String,
    pub content: String,
}

/// The mathematical value of a [`StoredNote`].
pub struct StoredNoteView {
    pub id: Identifier,
    pub user_id: Identifier,
    pub created: Timestamp,
    pub updated: Timestamp,
    pub deleted: Option<Timestamp>,
    pub title: Seq<char>,
    pub content: Seq<char>,
}

impl View for StoredNote {
    type V = StoredNoteView;

    open spec fn view(&self) -> StoredNoteView {
        StoredNoteView {
            id: self.id,
            user_id: self.user_id,
            created: self.created,
            updated: self.updated,
            deleted: self.deleted,
            title: self.title@,
            content: self.content@,
        }
    }
}

/// The views of a sequence of stored notes, in order.
pub open spec fn stored_views(notes: Seq<StoredNote>) -> Seq<StoredNoteView> {
    notes.map_values(|n: StoredNote| n@)
}

/// The row that a result set holds for a stored note: every column has a
/// value, but `deleted`, which is `NULL` for an active note.
pub open spec fn row_of(note: StoredNoteView) -> RawRowView {
    RawRowView {
        id: Field::Value(note.id.value),
        user_id: Field::Value(note.user_id.value),
        created: Field::Value(note.created.nanos),
        updated: Field::Value(note.updated.nanos),
        deleted: match note.deleted {
            Some(at) => Field::Value(at.nanos),
            None => Field::Null,
        },
        title: Field::Value(note.title),
        content: Field::Value(note.content),
    }
}

/// The rows of a sequence of stored notes, in order.
pub open spec fn rows_of(notes: Seq<StoredNoteView>) -> Seq<RawRowView> {
    notes.map_values(|n: StoredNoteView| row_of(n))
}

/// Whether a note has this id and this owner.
pub open spec fn addressed(note: StoredNoteView, id: Identifier, user_id: Identifier) -> bool {
    note.id == id && note.user_id == user_id
}

/// Whether a note belongs to this user and is not soft-deleted.
pub open spec fn active_for(note: StoredNoteView, user_id: Identifier) -> bool {
    note.user_id == user_id && note.deleted is None
}

/// The position of the first note at or after `from` with this id and
/// owner, or the number of notes if there is none.
pub open spec fn position_from(
    notes: Seq<StoredNoteView>,
    id: Identifier,
    user_id: Identifier,
    from: int,
) -> int
    decreases notes.len() - from,
{
    if from < 0 || from >= notes.len() {
        notes.len() as int
    } else if addressed(notes[from], id, user_id) {
        from
    } else {
        position_from(notes, id, user_id, from + 1)
    }
}

/// Where a note with this `created` goes into a sequence that is ordered
/// most recent first: behind every note that is as recent or more recent.
pub open spec fn insert_position(sorted: Seq<StoredNoteView>, created: Timestamp) -> int
    decreases sorted.len(),
{
    if sorted.len() == 0 || sorted.last().created.nanos >= created.nanos {
        sorted.len() as int
    } else {
        insert_position(sorted.drop_last(), created)
    }
}

/// The active notes of a user, most recently created first; notes that tie
/// keep the order of the table.
pub open spec fn newest_first(notes: Seq<StoredNoteView>, user_id: Identifier) -> Seq<
    StoredNoteView,
>
    decreases notes.len(),
{
    if notes.len() == 0 {
        Seq::empty()
    } else {
        let before = newest_first(notes.drop_last(), user_id);
        let note = notes.last();
        if active_for(note, user_id) {
            before.insert(insert_position(before, note.created), note)
        } else {
            before
        }
    }
}

/// The notes of every other user, in the order of the table.
pub open spec fn without_user(notes: Seq<StoredNoteView>, user_id: Identifier) -> Seq<
    StoredNoteView,
>
    decreases notes.len(),
{
    if notes.len() == 0 {
        Seq::empty()
    } else {
        let before = without_user(notes.drop_last(), user_id);
        if notes.last().user_id == user_id {
            before
        } else {
            before.push(notes.last())
        }
    }
}

/// A note as an insert makes it: created and updated now, not deleted.
pub open spec fn fresh_note(
    id: Identifier,
    user_id: Identifier,
    title: Seq<char>,
    content: Seq<char>,
    now: Timestamp,
) -> StoredNoteView {
    StoredNoteView { id, user_id, created: now, updated: now, deleted: None, title, content }
}

/// A note with title and content replaced, updated now.
pub open spec fn revised(
    note: StoredNoteView,
    title: Seq<char>,
    content: Seq<char>,
    now: Timestamp,
) -> StoredNoteView {
    StoredNoteView { title, content, updated: now, ..note }
}

/// A note stamped as deleted now. A note that was deleted before is stamped
/// again.
pub open spec fn stamped(note: StoredNoteView, now: Timestamp) -> StoredNoteView {
    StoredNoteView { deleted: Some(now), updated: now, ..note }
}

/// The message of the database error that an insert fails with when no
/// identifier is left to assign.
pub open spec fn exhausted_message() -> Seq<char> {
    "identifiers exhausted"@
}

/// The table: its notes in order of insertion, and the next identifier to
/// assign.
pub struct Store {
    notes: Vec<StoredNote>,
    next_id: u128,
}

/// The mathematical value of a [`Store`].
pub struct StoreView {
    pub notes: Seq<StoredNoteView>,
    pub next_id: u128,
}

impl StoreView {
    /// Every identifier in the table was assigned from the counter, and no
    /// two notes share one.
    pub open spec fn well_formed(self) -> bool {
        &&& forall|i: int|
            0 <= i < self.notes.len() ==> (#[trigger] self.notes[i]).id.value < self.next_id
        &&& forall|i: int, j: int|
            0 <= i < j < self.notes.len() ==> (#[trigger] self.notes[i]).id != (
            #[trigger] self.notes[j]).id
    }

    /// The same counter with other notes.
    pub open spec fn with_notes(self, notes: Seq<StoredNoteView>) -> StoreView {
        StoreView { notes, next_id: self.next_id }
    }

    /// The position of the note with this id and owner, or the number of
    /// notes if there is none.
    pub open spec fn position(self, id: Identifier, user_id: Identifier) -> int {
        position_from(self.notes, id, user_id, 0)
    }

    /// What a statement does to the table and which rows it returns, or the
    /// failure it ends with, at the instant `now`.
    ///
    /// The select returns the active notes of the user, most recent first,
    /// and changes nothing. The update and the soft-delete change the note
    /// with the given id and owner and return its row; they change and
    /// return nothing where there is no such note. The delete removes every
    /// note of the user and returns nothing. The insert appends a note under
    /// the next identifier and returns its row; it fails where no identifier
    /// is left.
    pub open spec fn apply(self, statement: StatementView, now: Timestamp) -> Result<
        (StoreView, Seq<RawRowView>),
        StorageErrorView,
    > {
        match statement {
            StatementView::SelectActive { user_id } => Ok(
                (self, rows_of(newest_first(self.notes, user_id))),
            ),
            StatementView::Update { title, content, id, user_id } => {
                let at = self.position(id, user_id);
                if at < self.notes.len() {
                    let note = revised(self.notes[at], title, content, now);
                    Ok((self.with_notes(self.notes.update(at, note)), seq![row_of(note)]))
                } else {
                    Ok((self, Seq::empty()))
                }
            },
            StatementView::DeleteAll { user_id } => Ok(
                (self.with_notes(without_user(self.notes, user_id)), Seq::empty()),
            ),
            StatementView::Insert { title, content, user_id } => {
                if self.next_id == u128::MAX {
                    Err(StorageErrorView::Database { message: exhausted_message() })
                } else {
                    let note = fresh_note(
                        Identifier { value: self.next_id },
                        user_id,
                        title,
                        content,
                        now,
                    );
                    Ok(
                        (
                            StoreView {
                                notes: self.notes.push(note),
                                next_id: (self.next_id + 1) as u128,
                            },
                            seq![row_of(note)],
                        ),
                    )
                }
            },
            StatementView::MarkDeleted { id, user_id } => {
                let at = self.position(id, user_id);
                if at < self.notes.len() {
                    let note = stamped(self.notes[at], now);
                    Ok((self.with_notes(self.notes.update(at, note)), seq![row_of(note)]))
                } else {
                    Ok((self, Seq::empty()))
                }
            },
        }
    }
}

/// `position_from` is the one position at or after `from` that is the end of
/// the notes or a note with this id and owner, with no such note before it.
pub proof fn lemma_position_from(
    notes: Seq<StoredNoteView>,
    id: Identifier,
    user_id: Identifier,
    from: int,
    at: int,
)
    requires
        0 <= from <= at <= notes.len(),
        forall|i: int| from <= i < at ==> !addressed(#[trigger] notes[i], id, user_id),
        at == notes.len() || addressed(notes[at], id, user_id),
    ensures
        position_from(notes, id, user_id, from) == at,
    decreases at - from,
{
    if from < at {
        assert(!addressed(notes[from], id, user_id));
        lemma_position_from(notes, id, user_id, from + 1, at);
    }
}

/// Where `position_from` points: at the end of the notes or at a note with
/// this id and owner, past every note at or after `from` that is not one.
pub proof fn lemma_position_found(
    notes: Seq<StoredNoteView>,
    id: Identifier,
    user_id: Identifier,
    from: int,
)
    requires
        0 <= from <= notes.len(),
    ensures
        from <= position_from(notes, id, user_id, from) <= notes.len(),
        position_from(notes, id, user_id, from) < notes.len() ==> addressed(
            notes[position_from(notes, id, user_id, from)],
            id,
            user_id,
        ),
        forall|i: int|
            from <= i < position_from(notes, id, user_id, from) ==> !addressed(
                #[trigger] notes[i],
                id,
                user_id,
            ),
    decreases notes.len() - from,
{
    if from < notes.len() && !addressed(notes[from], id, user_id) {
        lemma_position_found(notes, id, user_id, from + 1);
    }
}

/// Every note that `without_user` keeps is a note of the table, and notes
/// that are kept stay in the order of the table.
pub proof fn lemma_without_user(notes: Seq<StoredNoteView>, user_id: Identifier)
    ensures
        without_user(notes, user_id).len() <= notes.len(),
        forall|k: int|
            0 <= k < without_user(notes, user_id).len() ==> (#[trigger] without_user(
                notes,
                user_id,
            )[k]).user_id != user_id,
        forall|k: int|
            #![trigger without_user(notes, user_id)[k]]
            0 <= k < without_user(notes, user_id).len() ==> exists|i: int|
                k <= i < notes.len() && notes[i] == without_user(notes, user_id)[k],
        forall|k: int, l: int|
            #![trigger without_user(notes, user_id)[k], without_user(notes, user_id)[l]]
            0 <= k < l < without_user(notes, user_id).len() ==> exists|i: int, j: int|
                0 <= i < j < notes.len() && notes[i] == without_user(notes, user_id)[k] && notes[j]
                    == without_user(notes, user_id)[l],
        forall|i: int|
            0 <= i < notes.len() && (#[trigger] notes[i]).user_id != user_id ==> without_user(
                notes,
                user_id,
            ).contains(notes[i]),
    decreases notes.len(),
{
    let kept = without_user(notes, user_id);
    if notes.len() > 0 {
        let rest = notes.drop_last();
        let before = without_user(rest, user_id);
        lemma_without_user(rest, user_id);
        assert forall|k: int| 0 <= k < kept.len() implies exists|i: int|
            k <= i < notes.len() && notes[i] == #[trigger] kept[k] by {
            if k < before.len() {
                let i = choose|i: int| k <= i < rest.len() && rest[i] == before[k];
                assert(notes[i] == kept[k]);
            } else {
                assert(notes[notes.len() - 1] == kept[k]);
            }
        }
        assert forall|k: int, l: int| 0 <= k < l < kept.len() implies exists|i: int, j: int|
            0 <= i < j < notes.len() && notes[i] == #[trigger] kept[k] && notes[j]
                == #[trigger] kept[l] by {
            if l < before.len() {
                let (i, j) = choose|i: int, j: int|
                    0 <= i < j < rest.len() && rest[i] == before[k] && rest[j] == before[l];
                assert(notes[i] == kept[k] && notes[j] == kept[l]);
            } else {
                let i = choose|i: int| k <= i < rest.len() && rest[i] == before[k];
                assert(notes[i] == kept[k] && notes[notes.len() - 1] == kept[l]);
            }
        }
        assert forall|i: int|
            0 <= i < notes.len() && (#[trigger] notes[i]).user_id != user_id implies kept.contains(
            notes[i],
        ) by {
            if i < rest.len() {
                assert(rest[i] == notes[i]);
                assert(before.contains(rest[i]));
                let k = choose|k: int| 0 <= k < before.len() && before[k] == rest[i];
                assert(kept[k] == notes[i]);
            } else {
                assert(kept[kept.len() - 1] == notes[i]);
            }
        }
    }
}

/// Removing the notes of a user keeps the table well formed.
pub proof fn lemma_without_user_well_formed(store: StoreView, user_id: Identifier)
    requires
        store.well_formed(),
    ensures
        store.with_notes(without_user(store.notes, user_id)).well_formed(),
{
    let kept = without_user(store.notes, user_id);
    lemma_without_user(store.notes, user_id);
    assert forall|k: int| 0 <= k < kept.len() implies (#[trigger] kept[k]).id.value
        < store.next_id by {
        let i = choose|i: int| k <= i < store.notes.len() && store.notes[i] == kept[k];
        assert(store.notes[i].id.value < store.next_id);
    }
    assert forall|k: int, l: int| 0 <= k < l < kept.len() implies (#[trigger] kept[k]).id != (
    #[trigger] kept[l]).id by {
        let (i, j) = choose|i: int, j: int|
            0 <= i < j < store.notes.len() && store.notes[i] == kept[k] && store.notes[j]
                == kept[l];
        assert(store.notes[i].id != store.notes[j].id);
    }
}

/// Whether the note `later` is the note `earlier` at a later time: the same
/// id, owner and instant of creation, and still deleted if it was.
pub open spec fn same_note(earlier: StoredNoteView, later: StoredNoteView) -> bool {
    &&& later.id == earlier.id
    &&& later.user_id == earlier.user_id
    &&& later.created == earlier.created
    &&& earlier.deleted is Some ==> later.deleted is Some
}

/// Whether the table `after` can follow the table `before`: the counter
/// has not gone back, and every note of `after` under an identifier that
/// the counter of `before` had passed is a note of `before` at a later
/// time. So an identifier is never used for a second note, and a note is
/// never given to another user, created anew, or brought back from
/// deletion.
pub open spec fn follows(before: StoreView, after: StoreView) -> bool {
    &&& before.next_id <= after.next_id
    &&& forall|k: int|
        #![trigger after.notes[k]]
        0 <= k < after.notes.len() && after.notes[k].id.value < before.next_id ==> exists|i: int|
            0 <= i < before.notes.len() && same_note(#[trigger] before.notes[i], after.notes[k])
}

/// Every table follows itself.
pub proof fn lemma_follows_itself(store: StoreView)
    ensures
        follows(store, store),
{
    assert forall|k: int|
        #![trigger store.notes[k]]
        0 <= k < store.notes.len() && store.notes[k].id.value < store.next_id implies exists|
        i: int,
    |
        0 <= i < store.notes.len() && same_note(#[trigger] store.notes[i], store.notes[k]) by {
        assert(same_note(store.notes[k], store.notes[k]));
    }
}

/// What follows a table that follows another, follows that one too.
pub proof fn lemma_follows_on(first: StoreView, second: StoreView, third: StoreView)
    requires
        follows(first, second),
        follows(second, third),
    ensures
        follows(first, third),
{
    assert forall|k: int|
        #![trigger third.notes[k]]
        0 <= k < third.notes.len() && third.notes[k].id.value < first.next_id implies exists|
        i: int,
    |
        0 <= i < first.notes.len() && same_note(#[trigger] first.notes[i], third.notes[k]) by {
        let j = choose|j: int|
            0 <= j < second.notes.len() && same_note(#[trigger] second.notes[j], third.notes[k]);
        assert(second.notes[j].id.value < first.next_id);
        let i = choose|i: int|
            0 <= i < first.notes.len() && same_note(#[trigger] first.notes[i], second.notes[j]);
        assert(same_note(first.notes[i], third.notes[k]));
    }
}

/// Replacing a note by the same note at a later time leaves a table that
/// is well formed and follows.
pub proof fn lemma_rewrite_follows(store: StoreView, at: int, note: StoredNoteView)
    requires
        store.well_formed(),
        0 <= at < store.notes.len(),
        same_note(store.notes[at], note),
    ensures
        store.with_notes(store.notes.update(at, note)).well_formed(),
        follows(store, store.with_notes(store.notes.update(at, note))),
{
    let after = store.with_notes(store.notes.update(at, note));
    assert forall|k: int|
        #![trigger after.notes[k]]
        0 <= k < after.notes.len() && after.notes[k].id.value < store.next_id implies exists|
        i: int,
    |
        0 <= i < store.notes.len() && same_note(#[trigger] store.notes[i], after.notes[k]) by {
        assert(same_note(store.notes[k], after.notes[k]));
    }
    assert forall|i: int, j: int| 0 <= i < j < after.notes.len() implies (
    #[trigger] after.notes[i]).id != (#[trigger] after.notes[j]).id by {
        assert(store.notes[i].id != store.notes[j].id);
    }
    assert forall|i: int| 0 <= i < after.notes.len() implies (#[trigger] after.notes[i]).id.value
        < after.next_id by {
        assert(store.notes[i].id.value < store.next_id);
    }
}

/// Appending a note under the next identifier leaves a table that is well
/// formed and follows.
pub proof fn lemma_append_follows(store: StoreView, note: StoredNoteView)
    requires
        store.well_formed(),
        store.next_id < u128::MAX,
        note.id.value == store.next_id,
    ensures
        (StoreView {
            notes: store.notes.push(note),
            next_id: (store.next_id + 1) as u128,
        }).well_formed(),
        follows(
            store,
            StoreView { notes: store.notes.push(note), next_id: (store.next_id + 1) as u128 },
        ),
{
    let after = StoreView { notes: store.notes.push(note), next_id: (store.next_id + 1) as u128 };
    assert forall|k: int|
        #![trigger after.notes[k]]
        0 <= k < after.notes.len() && after.notes[k].id.value < store.next_id implies exists|
        i: int,
    |
        0 <= i < store.notes.len() && same_note(#[trigger] store.notes[i], after.notes[k]) by {
        assert(same_note(store.notes[k], after.notes[k]));
    }
    assert forall|i: int, j: int| 0 <= i < j < after.notes.len() implies (
    #[trigger] after.notes[i]).id != (#[trigger] after.notes[j]).id by {
        assert(store.notes[i].id.value < store.next_id);
        if j < store.notes.len() {
            assert(store.notes[i].id != store.notes[j].id);
        }
    }
    assert forall|i: int| 0 <= i < after.notes.len() implies (#[trigger] after.notes[i]).id.value
        < after.next_id by {
        if i < store.notes.len() {
            assert(store.notes[i].id.value < store.next_id);
        }
    }
}

/// Removing the notes of a user leaves a table that follows.
pub proof fn lemma_removal_follows(store: StoreView, user_id: Identifier)
    ensures
        follows(store, store.with_notes(without_user(store.notes, user_id))),
{
    lemma_without_user(store.notes, user_id);
    let after = store.with_notes(without_user(store.notes, user_id));
    assert forall|k: int|
        #![trigger after.notes[k]]
        0 <= k < after.notes.len() && after.notes[k].id.value < store.next_id implies exists|
        i: int,
    |
        0 <= i < store.notes.len() && same_note(#[trigger] store.notes[i], after.notes[k]) by {
        let i = choose|i: int| k <= i < store.notes.len() && store.notes[i] == after.notes[k];
        assert(same_note(store.notes[i], after.notes[k]));
    }
}

/// A statement leaves a table that is well formed and follows the one it
/// was run on.
pub proof fn lemma_apply_follows(store: StoreView, statement: StatementView, now: Timestamp)
    requires
        store.well_formed(),
    ensures
        store.apply(statement, now) matches Ok((after, _)) ==> after.well_formed() && follows(
            store,
            after,
        ),
{
    match statement {
        StatementView::SelectActive { .. } => {
            lemma_follows_itself(store);
        },
        StatementView::Update { title, content, id, user_id } => {
            lemma_position_found(store.notes, id, user_id, 0);
            let at = store.position(id, user_id);
            if at < store.notes.len() {
                lemma_rewrite_follows(store, at, revised(store.notes[at], title, content, now));
            } else {
                lemma_follows_itself(store);
            }
        },
        StatementView::DeleteAll { user_id } => {
            lemma_without_user_well_formed(store, user_id);
            lemma_removal_follows(store, user_id);
        },
        StatementView::Insert { title, content, user_id } => {
            if store.next_id < u128::MAX {
                lemma_append_follows(
                    store,
                    fresh_note(Identifier { value: store.next_id }, user_id, title, content, now),
                );
            }
        },
        StatementView::MarkDeleted { id, user_id } => {
            lemma_position_found(store.notes, id, user_id, 0);
            let at = store.position(id, user_id);
            if at < store.notes.len() {
                lemma_rewrite_follows(store, at, stamped(store.notes[at], now));
            } else {
                lemma_follows_itself(store);
            }
        },
    }
}

/// Whether a sequence of notes is ordered by `created`, most recent first.
pub open spec fn is_newest_first(notes: Seq<StoredNoteView>) -> bool {
    forall|i: int, j: int|
        0 <= i < j < notes.len() ==> (#[trigger] notes[i]).created.nanos >= (
        #[trigger] notes[j]).created.nanos
}

/// In a sequence that is ordered most recent first, every note before the
/// insert position is as recent as the new one or more recent, and every
/// note from there on is older.
pub proof fn lemma_insert_position(sorted: Seq<StoredNoteView>, created: Timestamp)
    requires
        is_newest_first(sorted),
    ensures
        0 <= insert_position(sorted, created) <= sorted.len(),
        forall|i: int|
            0 <= i < insert_position(sorted, created) ==> (#[trigger] sorted[i]).created.nanos
                >= created.nanos,
        forall|i: int|
            insert_position(sorted, created) <= i < sorted.len() ==> (
            #[trigger] sorted[i]).created.nanos < created.nanos,
    decreases sorted.len(),
{
    if sorted.len() == 0 {
    } else if sorted.last().created.nanos >= created.nanos {
        assert forall|i: int| 0 <= i < sorted.len() implies (#[trigger] sorted[i]).created.nanos
            >= created.nanos by {
            if i < sorted.len() - 1 {
                assert(sorted[i].created.nanos >= sorted[sorted.len() - 1].created.nanos);
            }
        }
    } else {
        let rest = sorted.drop_last();
        assert forall|i: int, j: int| 0 <= i < j < rest.len() implies (
        #[trigger] rest[i]).created.nanos >= (#[trigger] rest[j]).created.nanos by {
            assert(sorted[i].created.nanos >= sorted[j].created.nanos);
        }
        lemma_insert_position(rest, created);
        assert forall|i: int| insert_position(sorted, created) <= i < sorted.len() implies (
        #[trigger] sorted[i]).created.nanos < created.nanos by {
            if i < rest.len() {
                assert(rest[i].created.nanos < created.nanos);
            }
        }
        assert forall|i: int| 0 <= i < insert_position(sorted, created) implies (
        #[trigger] sorted[i]).created.nanos >= created.nanos by {
            assert(rest[i].created.nanos >= created.nanos);
        }
    }
}

/// What a listing holds: it is ordered most recent first; each of its notes
/// is a note of the table that belongs to the user and is not
/// soft-deleted; and every such note of the table is in it.
pub proof fn lemma_newest_first(notes: Seq<StoredNoteView>, user_id: Identifier)
    ensures
        is_newest_first(newest_first(notes, user_id)),
        newest_first(notes, user_id).len() <= notes.len(),
        forall|k: int|
            0 <= k < newest_first(notes, user_id).len() ==> active_for(
                #[trigger] newest_first(notes, user_id)[k],
                user_id,
            ) && notes.contains(newest_first(notes, user_id)[k]),
        forall|i: int|
            0 <= i < notes.len() && active_for(#[trigger] notes[i], user_id) ==> newest_first(
                notes,
                user_id,
            ).contains(notes[i]),
    decreases notes.len(),
{
    let listed = newest_first(notes, user_id);
    if notes.len() > 0 {
        let rest = notes.drop_last();
        let note = notes.last();
        let before = newest_first(rest, user_id);
        lemma_newest_first(rest, user_id);
        assert forall|k: int| 0 <= k < before.len() implies notes.contains(
            #[trigger] before[k],
        ) by {
            assert(rest.contains(before[k]));
            let i = choose|i: int| 0 <= i < rest.len() && rest[i] == before[k];
            assert(notes[i] == before[k]);
        }
        if active_for(note, user_id) {
            let at = insert_position(before, note.created);
            lemma_insert_position(before, note.created);
            assert(listed == before.insert(at, note));
            assert forall|i: int, j: int| 0 <= i < j < listed.len() implies (
            #[trigger] listed[i]).created.nanos >= (#[trigger] listed[j]).created.nanos by {
                if j < at {
                    assert(before[i].created.nanos >= before[j].created.nanos);
                } else if j == at {
                    assert(before[i].created.nanos >= note.created.nanos);
                } else if i < at {
                    assert(before[i].created.nanos >= before[j - 1].created.nanos);
                } else if i == at {
                    assert(before[j - 1].created.nanos < note.created.nanos);
                } else {
                    assert(before[i - 1].created.nanos >= before[j - 1].created.nanos);
                }
            }
            assert forall|k: int| 0 <= k < listed.len() implies active_for(
                #[trigger] listed[k],
                user_id,
            ) && notes.contains(listed[k]) by {
                if k < at {
                    assert(listed[k] == before[k]);
                } else if k == at {
                    assert(notes[notes.len() - 1] == listed[k]);
                } else {
                    assert(listed[k] == before[k - 1]);
                }
            }
            assert forall|i: int|
                0 <= i < notes.len() && active_for(
                    #[trigger] notes[i],
                    user_id,
                ) implies listed.contains(notes[i]) by {
                if i < rest.len() {
                    assert(rest[i] == notes[i]);
                    assert(before.contains(rest[i]));
                    let k = choose|k: int| 0 <= k < before.len() && before[k] == rest[i];
                    if k < at {
                        assert(listed[k] == notes[i]);
                    } else {
                        assert(listed[k + 1] == notes[i]);
                    }
                } else {
                    assert(listed[at] == notes[i]);
                }
            }
        } else {
            assert forall|i: int|
                0 <= i < notes.len() && active_for(
                    #[trigger] notes[i],
                    user_id,
                ) implies listed.contains(notes[i]) by {
                assert(rest[i] == notes[i]);
            }
        }
    }
}

impl StoredNote {
    /// The row that a result set holds for this note.
    pub fn row(&self) -> (row: RawRow)
        ensures
            row@ == row_of(self@),
    {
        RawRow {
            id: Field::Value(self.id.value),
            user_id: Field::Value(self.user_id.value),
            created: Field::Value(self.created.nanos),
            updated: Field::Value(self.updated.nanos),
            deleted: match self.deleted {
                Some(at) => Field::Value(at.nanos),
                None => Field::Null,
            },
            title: Field::Value(self.title.clone()),
            content: Field::Value(self.content.clone()),
        }
    }

    /// A copy of this note.
    pub fn duplicate(&self) -> (copy: StoredNote)
        ensures
            copy@ == self@,
    {
        StoredNote {
            id: self.id,
            user_id: self.user_id,
            created: self.created,
            updated: self.updated,
            deleted: self.deleted,
            title: self.title.clone(),
            content: self.content.clone(),
        }
    }
}

impl View for Store {
    type V = StoreView;

    closed spec fn view(&self) -> StoreView {
        StoreView { notes: stored_views(self.notes@), next_id: self.next_id }
    }
}

impl Store {
    /// An empty table whose counter stands at zero.
    pub fn new() -> (store: Store)
        ensures
            store@ == (StoreView { notes: Seq::empty(), next_id: 0 }),
            store@.well_formed(),
    {
        let store = Store { notes: Vec::new(), next_id: 0 };
        assert(store@.notes =~= Seq::empty());
        store
    }

    /// An empty table whose counter stands at `next_id`: the first note
    /// inserted gets that identifier.
    pub fn with_counter(next_id: u128) -> (store: Store)
        ensures
            store@ == (StoreView { notes: Seq::empty(), next_id }),
            store@.well_formed(),
    {
        let store = Store { notes: Vec::new(), next_id };
        assert(store@.notes =~= Seq::empty());
        store
    }

    /// The number of notes in the table, soft-deleted ones included.
    pub fn len(&self) -> (n: usize)
        ensures
            n == self@.notes.len(),
    {
        self.notes.len()
    }

    /// The note at a position of the table.
    pub fn get(&self, at: usize) -> (note: &StoredNote)
        requires
            at < self@.notes.len(),
        ensures
            note@ == self@.notes[at as int],
    {
        &self.notes[at]
    }

    /// A copy of the table as it stands.
    pub fn snapshot(&self) -> (copy: Store)
        ensures
            copy@ == self@,
    {
        let mut notes: Vec<StoredNote> = Vec::new();
        let mut i: usize = 0;
        while i < self.notes.len()
            invariant
                i <= self.notes.len(),
                notes@.len() == i,
                forall|k: int| 0 <= k < i ==> (#[trigger] notes@[k])@ == self.notes@[k]@,
            decreases self.notes.len() - i,
        {
            notes.push(self.notes[i].duplicate());
            i = i + 1;
        }
        assert(stored_views(notes@) =~= stored_views(self.notes@));
        Store { notes, next_id: self.next_id }
    }

    /// The position of the note with this id and owner, or the number of
    /// notes if there is none.
    fn find(&self, id: Identifier, user_id: Identifier) -> (at: usize)
        ensures
            at == self@.position(id, user_id),
            at <= self@.notes.len(),
            at < self@.notes.len() ==> addressed(self@.notes[at as int], id, user_id),
    {
        let mut at: usize = 0;
        while at < self.notes.len()
            invariant
                at <= self.notes.len(),
                forall|i: int| 0 <= i < at ==> !addressed(#[trigger] self@.notes[i], id, user_id),
            decreases self.notes.len() - at,
        {
            if self.notes[at].id.value == id.value && self.notes[at].user_id.value
                == user_id.value {
                proof {
                    lemma_position_from(self@.notes, id, user_id, 0, at as int);
                }
                return at;
            }
            at = at + 1;
        }
        proof {
            lemma_position_from(self@.notes, id, user_id, 0, at as int);
        }
        at
    }

    /// The rows of the active notes of a user, most recently created first.
    fn select_active(&self, user_id: Identifier) -> (rows: Vec<RawRow>)
        ensures
            row_views(rows@) == rows_of(newest_first(self@.notes, user_id)),
    {
        let ghost table = self@.notes;
        let mut order: Vec<usize> = Vec::new();
        let mut i: usize = 0;
        while i < self.notes.len()
            invariant
                table == self@.notes,
                i <= self.notes.len(),
                forall|k: int| 0 <= k < order@.len() ==> (#[trigger] order@[k]) < i,
                order@.map_values(|at: usize| table[at as int]) == newest_first(
                    table.take(i as int),
                    user_id,
                ),
            decreases self.notes.len() - i,
        {
            let ghost sorted = order@.map_values(|at: usize| table[at as int]);
            let note = &self.notes[i];
            proof {
                assert(table.take(i + 1).drop_last() =~= table.take(i as int));
                assert(table.take(i + 1).last() == table[i as int]);
            }
            if note.user_id.value == user_id.value && note.deleted.is_none() {
                let mut at: usize = order.len();
                proof {
                    assert(sorted.take(at as int) =~= sorted);
                }
                while at > 0 && self.notes[order[at - 1]].created.nanos < note.created.nanos
                    invariant
                        table == self@.notes,
                        i < self.notes.len(),
                        note@ == table[i as int],
                        at <= order@.len(),
                        sorted == order@.map_values(|at: usize| table[at as int]),
                        forall|k: int| 0 <= k < order@.len() ==> (#[trigger] order@[k]) < i,
                        insert_position(sorted, note.created) == insert_position(
                            sorted.take(at as int),
                            note.created,
                        ),
                    decreases at,
                {
                    proof {
                        assert(sorted.take(at as int).drop_last() =~= sorted.take(at - 1));
                        assert(sorted.take(at as int).last() == table[order@[at - 1] as int]);
                    }
                    at = at - 1;
                }
                proof {
                    if at > 0 {
                        assert(sorted.take(at as int).last() == table[order@[at - 1] as int]);
                    }
                    assert(insert_position(sorted, note.created) == at);
                }
                order.insert(at, i);
                proof {
                    assert(order@.map_values(|at: usize| table[at as int]) =~= sorted.insert(
                        at as int,
                        table[i as int],
                    ));
                }
            }
            i = i + 1;
        }
        proof {
            assert(table.take(i as int) =~= table);
        }
        let ghost listed = newest_first(table, user_id);
        let mut rows: Vec<RawRow> = Vec::new();
        let mut k: usize = 0;
        while k < order.len()
            invariant
                table == self@.notes,
                k <= order.len(),
                forall|k: int| 0 <= k < order@.len() ==> (#[trigger] order@[k]) < self.notes.len(),
                order@.map_values(|at: usize| table[at as int]) == listed,
                rows@.len() == k,
                forall|j: int| 0 <= j < k ==> (#[trigger] rows@[j])@ == row_of(listed[j]),
            decreases order.len() - k,
        {
            proof {
                assert(order@.map_values(|at: usize| table[at as int])[k as int] == table[order@[k as int] as int]);
            }
            rows.push(self.notes[order[k]].row());
            k = k + 1;
        }
        proof {
            assert(listed.len() == order@.len());
            assert(row_views(rows@) =~= rows_of(listed));
        }
        rows
    }

    /// Removes every note of a user.
    fn remove_user(&mut self, user_id: Identifier)
        ensures
            final(self)@ == old(self)@.with_notes(without_user(old(self)@.notes, user_id)),
    {
        let ghost table = self@.notes;
        let mut kept: Vec<StoredNote> = Vec::new();
        let mut i: usize = 0;
        while i < self.notes.len()
            invariant
                table == self@.notes,
                i <= self.notes.len(),
                stored_views(kept@) == without_user(table.take(i as int), user_id),
            decreases self.notes.len() - i,
        {
            proof {
                assert(table.take(i + 1).drop_last() =~= table.take(i as int));
                assert(table.take(i + 1).last() == table[i as int]);
            }
            if self.notes[i].user_id.value != user_id.value {
                kept.push(self.notes[i].duplicate());
                proof {
                    assert(stored_views(kept@) =~= without_user(table.take(i + 1), user_id));
                }
            }
            i = i + 1;
        }
        proof {
            assert(table.take(i as int) =~= table);
        }
        self.notes = kept;
    }

    /// Runs a statement on the table at the instant `now`: what
    /// `StoreView::apply` defines. A statement that fails leaves the table
    /// as it was.
    pub fn execute(&mut self, statement: &Statement, now: Timestamp) -> (result: Result<
        Vec<RawRow>,
        StorageError,
    >)
        requires
            old(self)@.well_formed(),
        ensures
            final(self)@.well_formed(),
            match result {
                Ok(rows) => old(self)@.apply(statement@, now) == Ok::<
                    (StoreView, Seq<RawRowView>),
                    StorageErrorView,
                >((final(self)@, row_views(rows@))),
                Err(error) => old(self)@.apply(statement@, now) == Err::<
                    (StoreView, Seq<RawRowView>),
                    StorageErrorView,
                >(error@) && final(self)@ == old(self)@,
            },
    {
        match statement {
            Statement::SelectActive { user_id } => Ok(self.select_active(*user_id)),
            Statement::Update { title, content, id, user_id } => {
                let at = self.find(*id, *user_id);
                let mut rows: Vec<RawRow> = Vec::new();
                if at < self.notes.len() {
                    let current = &self.notes[at];
                    let note = StoredNote {
                        id: current.id,
                        user_id: current.user_id,
                        created: current.created,
                        updated: now,
                        deleted: current.deleted,
                        title: title.clone(),
                        content: content.clone(),
                    };
                    rows.push(note.row());
                    self.notes.set(at, note);
                    proof {
                        assert(self@.notes =~= old(self)@.notes.update(
                            at as int,
                            revised(old(self)@.notes[at as int], title@, content@, now),
                        ));
                        assert(row_views(rows@) =~= seq![
                            row_of(revised(old(self)@.notes[at as int], title@, content@, now)),
                        ]);
                    }
                } else {
                    proof {
                        assert(row_views(rows@) =~= Seq::empty());
                    }
                }
                Ok(rows)
            },
            Statement::DeleteAll { user_id } => {
                proof {
                    lemma_without_user_well_formed(self@, *user_id);
                }
                self.remove_user(*user_id);
                let rows: Vec<RawRow> = Vec::new();
                proof {
                    assert(row_views(rows@) =~= Seq::empty());
                }
                Ok(rows)
            },
            Statement::Insert { title, content, user_id } => {
                if self.next_id == u128::MAX {
                    return Err(
                        StorageError::Database { message: "identifiers exhausted".to_owned() },
                    );
                }
                let note = StoredNote {
                    id: Identifier { value: self.next_id },
                    user_id: *user_id,
                    created: now,
                    updated: now,
                    deleted: None,
                    title: title.clone(),
                    content: content.clone(),
                };
                let mut rows: Vec<RawRow> = Vec::new();
                rows.push(note.row());
                self.notes.push(note);
                self.next_id = self.next_id + 1;
                proof {
                    let made = fresh_note(
                        Identifier { value: old(self)@.next_id },
                        *user_id,
                        title@,
                        content@,
                        now,
                    );
                    assert(self@.notes =~= old(self)@.notes.push(made));
                    assert(row_views(rows@) =~= seq![row_of(made)]);
                }
                Ok(rows)
            },
            Statement::MarkDeleted { id, user_id } => {
                let at = self.find(*id, *user_id);
                let mut rows: Vec<RawRow> = Vec::new();
                if at < self.notes.len() {
                    let mut note = self.notes[at].duplicate();
                    note.deleted = Some(now);
                    note.updated = now;
                    rows.push(note.row());
                    self.notes.set(at, note);
                    proof {
                        assert(self@.notes =~= old(self)@.notes.update(
                            at as int,
                            stamped(old(self)@.notes[at as int], now),
                        ));
                        assert(row_views(rows@) =~= seq![
                            row_of(stamped(old(self)@.notes[at as int], now)),
                        ]);
                    }
                } else {
                    proof {
                        assert(row_views(rows@) =~= Seq::empty());
                    }
                }
                Ok(rows)
            },
        }
    }
}

} // verus!
