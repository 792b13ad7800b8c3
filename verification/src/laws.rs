//! What the service guarantees to its callers, proved of the operations as
//! they run against the reference table.

use crate::ident::{
    Identifier, identifier_value, invalid_argument, is_identifier, lemma_uuid_text_injective,
    uuid_text,
};
use crate::note::NoteView;
use crate::operation::{FILLER_NOTES, OperationView};
use crate::row::{RowError, map_row, note_of};
use crate::service::{create_plan, delete_plan, identifier, list_plan};
use crate::session::{
    batch, creation, deletion, effect, lemma_outcome_is_effect, lemma_run_steps_follow, listing,
    run_steps,
};
use crate::status::{Code, StatusView, not_found_message, unknown_message};
use crate::store::{
    StoreView, StoredNoteView, active_for, addressed, follows, is_newest_first,
    lemma_apply_follows, lemma_follows_itself, lemma_follows_on, lemma_newest_first,
    lemma_position_found, lemma_without_user, newest_first, row_of, rows_of, stamped,
    without_user,
};
use crate::stream::{
    EmitView, ResponderView, Signal, first_failure, lemma_first_failure_found, lemma_streamed,
    maps_at, streamed,
};
use crate::transaction::{ActionView, EventView, PhaseView, TransactionView};
use crate::timestamp::Timestamp;
use vstd::prelude::*;

verus! {

/// A stored note as callers see it.
pub open spec fn shown(note: StoredNoteView) -> NoteView {
    note_of(row_of(note))
}

/// Whether a stored note can be shown: whether each of its instants has a
/// text form.
pub open spec fn showable(note: StoredNoteView) -> bool {
    &&& note.created.representable()
    &&& note.updated.representable()
    &&& note.deleted matches Some(at) ==> at.representable()
}

/// The status of every failed point lookup.
pub open spec fn not_found() -> StatusView {
    StatusView { code: Code::NotFound, message: not_found_message() }
}

/// A stored note maps to what callers see of it exactly when it can be
/// shown; what they see keeps its title and content, and has `deleted`
/// exactly for a soft-deleted note.
pub proof fn lemma_shown(note: StoredNoteView)
    ensures
        showable(note) <==> map_row(Some(row_of(note))) is Ok,
        showable(note) ==> map_row(Some(row_of(note))) == Ok::<NoteView, RowError>(shown(note)),
        shown(note).id == uuid_text(note.id.value),
        shown(note).user_id == uuid_text(note.user_id.value),
        shown(note).title == note.title,
        shown(note).content == note.content,
        shown(note).deleted is Some <==> note.deleted is Some,
{
}

/// Listing shows only notes of the user that are not soft-deleted, most
/// recently created first.
///
/// For a well-formed `user_id` the answer is a sequence of notes. It runs
/// along the active notes of the user in the table, ordered by `created`
/// descending: the note at each position is what callers see of the stored
/// note at that position. So each note shown is a note of the table, has
/// the user's id as its `user_id`, and has no `deleted`.
pub proof fn law_listing_shows_active_notes_newest_first(store: StoreView, user_id: Seq<char>)
    ensures
        is_identifier(user_id) ==> ({
            let user = identifier(user_id);
            let all = newest_first(store.notes, user);
            &&& is_newest_first(all)
            &&& listing(store, user_id) matches Ok(notes)
            &&& notes.len() <= all.len()
            &&& forall|k: int|
                #![trigger notes[k]]
                0 <= k < notes.len() ==> {
                    &&& notes[k] == shown(all[k])
                    &&& store.notes.contains(all[k])
                    &&& all[k].user_id == user
                    &&& all[k].deleted is None
                    &&& notes[k].user_id == uuid_text(user.value)
                    &&& notes[k].deleted is None
                }
        }),
{
    if is_identifier(user_id) {
        let user = identifier(user_id);
        let all = newest_first(store.notes, user);
        let rows = rows_of(all);
        lemma_newest_first(store.notes, user);
        lemma_streamed(rows);
        let notes = streamed(rows);
        assert(listing(store, user_id) == Ok::<Seq<NoteView>, StatusView>(notes));
        assert forall|k: int| #![trigger notes[k]] 0 <= k < notes.len() implies {
            &&& notes[k] == shown(all[k])
            &&& store.notes.contains(all[k])
            &&& all[k].user_id == user
            &&& all[k].deleted is None
            &&& notes[k].user_id == uuid_text(user.value)
            &&& notes[k].deleted is None
        } by {
            assert(active_for(all[k], user));
            assert(rows[k] == row_of(all[k]));
            lemma_shown(all[k]);
        }
    }
}

/// Whether every active note of a user in the table can be shown.
pub open spec fn all_showable(store: StoreView, user: Identifier) -> bool {
    forall|j: int|
        0 <= j < store.notes.len() && active_for(#[trigger] store.notes[j], user) ==> showable(
            store.notes[j],
        )
}

/// Listing is complete where every note can be shown: then every active
/// note of the user is in the answer.
pub proof fn law_listing_is_complete(store: StoreView, user_id: Seq<char>, i: int)
    requires
        0 <= i < store.notes.len(),
    ensures
        is_identifier(user_id) && active_for(store.notes[i], identifier(user_id)) && all_showable(
            store,
            identifier(user_id),
        ) ==> ({
            &&& listing(store, user_id) matches Ok(notes)
            &&& notes.contains(shown(store.notes[i]))
        }),
{
    let user = identifier(user_id);
    if is_identifier(user_id) && active_for(store.notes[i], user) && all_showable(store, user) {
        let all = newest_first(store.notes, user);
        let rows = rows_of(all);
        lemma_newest_first(store.notes, user);
        assert forall|k: int| 0 <= k < rows.len() implies maps_at(rows, k) by {
            assert(active_for(all[k], user) && store.notes.contains(all[k]));
            let j = choose|j: int| 0 <= j < store.notes.len() && store.notes[j] == all[k];
            assert(showable(store.notes[j]));
            lemma_shown(all[k]);
        }
        lemma_streamed(rows);
        let notes = streamed(rows);
        assert(all.contains(store.notes[i]));
        let k = choose|k: int| 0 <= k < all.len() && all[k] == store.notes[i];
        lemma_shown(all[k]);
        assert(notes[k] == shown(store.notes[i]));
    }
}

/// A malformed identifier is `InvalidArgument`, whatever the operation, and
/// storage is not touched: no unit of work is made for the request, and the
/// table is as it was.
pub proof fn law_malformed_identifier_is_invalid_argument(
    store: StoreView,
    note: NoteView,
    note_id: Seq<char>,
    user_id: Seq<char>,
    now: Timestamp,
)
    ensures
        invalid_argument(user_id).code == Code::InvalidArgument,
        !is_identifier(user_id) ==> list_plan(user_id) == Err::<OperationView, StatusView>(
            invalid_argument(user_id),
        ) && listing(store, user_id) == Err::<Seq<NoteView>, StatusView>(
            invalid_argument(user_id),
        ),
        !is_identifier(note.user_id) ==> create_plan(note) == Err::<OperationView, StatusView>(
            invalid_argument(note.user_id),
        ) && creation(store, note, now) == (
            store,
            Err::<NoteView, StatusView>(invalid_argument(note.user_id)),
        ),
        is_identifier(note.user_id) && note.id.len() > 0 && !is_identifier(note.id)
            ==> create_plan(note) == Err::<OperationView, StatusView>(invalid_argument(note.id))
            && creation(store, note, now) == (
            store,
            Err::<NoteView, StatusView>(invalid_argument(note.id)),
        ),
        !is_identifier(note_id) ==> delete_plan(note_id, user_id) == Err::<
            OperationView,
            StatusView,
        >(invalid_argument(note_id)) && deletion(store, note_id, user_id, now) == (
            store,
            Err::<NoteView, StatusView>(invalid_argument(note_id)),
        ),
        is_identifier(note_id) && !is_identifier(user_id) ==> delete_plan(note_id, user_id) == Err::<
            OperationView,
            StatusView,
        >(invalid_argument(user_id)) && deletion(store, note_id, user_id, now) == (
            store,
            Err::<NoteView, StatusView>(invalid_argument(user_id)),
        ),
{
}

/// The note that a create returns is the last one of its batch.
pub open spec fn created_batch(store: StoreView, note: NoteView, now: Timestamp) -> Seq<
    StoredNoteView,
> {
    batch(
        store.next_id,
        (FILLER_NOTES + 1) as nat,
        identifier(note.user_id),
        note.title,
        note.content,
        now,
    )
}

/// What a create without id gives, in full: it succeeds exactly when the
/// `user_id` is well formed, the counter can give an identifier to every
/// note of the batch, and `now` has a text form.
proof fn lemma_creation(store: StoreView, note: NoteView, now: Timestamp)
    requires
        store.well_formed(),
        note.id.len() == 0,
    ensures
        creation(store, note, now).1 is Ok <==> is_identifier(note.user_id) && store.next_id
            + FILLER_NOTES + 1 <= u128::MAX && now.representable(),
        creation(store, note, now).1 is Ok ==> creation(store, note, now) == (
            StoreView {
                notes: without_user(store.notes, identifier(note.user_id)) + created_batch(
                    store,
                    note,
                    now,
                ),
                next_id: (store.next_id + FILLER_NOTES + 1) as u128,
            },
            Ok::<NoteView, StatusView>(shown(created_batch(store, note, now).last())),
        ),
        creation(store, note, now).1 is Err ==> creation(store, note, now).0 == store,
{
    if is_identifier(note.user_id) && store.next_id + FILLER_NOTES + 1 <= u128::MAX {
        lemma_shown(created_batch(store, note, now).last());
    }
}

/// A create assigns a fresh identifier: the `id` of the note it returns is
/// the `id` of no note that was in the table before, of this user or of
/// another.
pub proof fn law_created_note_has_fresh_id(store: StoreView, note: NoteView, now: Timestamp)
    requires
        store.well_formed(),
        note.id.len() == 0,
    ensures
        creation(store, note, now).1 matches Ok(made) ==> forall|i: int|
            0 <= i < store.notes.len() ==> shown(#[trigger] store.notes[i]).id != made.id,
{
    lemma_creation(store, note, now);
    if creation(store, note, now).1 is Ok {
        let made = created_batch(store, note, now).last();
        assert forall|i: int| 0 <= i < store.notes.len() implies shown(
            #[trigger] store.notes[i],
        ).id != shown(made).id by {
            assert(store.notes[i].id.value < store.next_id);
            if shown(store.notes[i]).id == shown(made).id {
                lemma_uuid_text_injective(store.notes[i].id.value, made.id.value);
            }
        }
    }
}

/// A create resets the notes of the user.
///
/// After a create that succeeds, the notes of every other user stand in
/// the table as before, and behind them the batch: the filler notes and,
/// last, the note that is returned. These are all the notes of the user;
/// each has the title and content of the request, was created now, and is
/// not deleted. No other note of the table has the `id` of the note
/// returned, and no note that the user had before is left.
pub proof fn law_create_resets_notes_of_user(store: StoreView, note: NoteView, now: Timestamp)
    requires
        store.well_formed(),
        note.id.len() == 0,
    ensures
        creation(store, note, now) matches (after, Ok(made)) ==> ({
            let user = identifier(note.user_id);
            let kept = without_user(store.notes, user);
            &&& after.well_formed()
            &&& after.notes == kept + created_batch(store, note, now)
            &&& after.notes.len() == kept.len() + FILLER_NOTES + 1
            &&& forall|k: int|
                0 <= k < after.notes.len() ==> ((#[trigger] after.notes[k]).user_id == user <==> k
                    >= kept.len())
            &&& forall|k: int|
                #![trigger after.notes[k]]
                kept.len() <= k < after.notes.len() ==> {
                    &&& after.notes[k].title == note.title
                    &&& after.notes[k].content == note.content
                    &&& after.notes[k].created == now
                    &&& after.notes[k].deleted is None
                }
            &&& made == shown(after.notes.last())
            &&& made.user_id == uuid_text(user.value)
            &&& made.title == note.title
            &&& made.content == note.content
            &&& made.deleted is None
            &&& forall|k: int|
                0 <= k < after.notes.len() - 1 ==> shown(#[trigger] after.notes[k]).id != made.id
            &&& forall|i: int, k: int|
                0 <= i < store.notes.len() && (#[trigger] store.notes[i]).user_id == user && 0 <= k
                    < after.notes.len() ==> (#[trigger] after.notes[k]).id != store.notes[i].id
            &&& forall|i: int|
                0 <= i < store.notes.len() && (#[trigger] store.notes[i]).user_id != user
                    ==> after.notes.contains(store.notes[i])
        }),
{
    lemma_creation(store, note, now);
    if creation(store, note, now).1 is Ok {
        let user = identifier(note.user_id);
        let kept = without_user(store.notes, user);
        let mine = created_batch(store, note, now);
        let after = creation(store, note, now).0;
        let made = shown(mine.last());
        lemma_without_user(store.notes, user);
        lemma_shown(mine.last());
        assert(after.notes.last() == mine.last());
        // Where each note of the new table comes from.
        assert forall|k: int| 0 <= k < after.notes.len() implies if k < kept.len() {
            (#[trigger] after.notes[k]).user_id != user && after.notes[k].id.value < store.next_id
                && store.notes.contains(after.notes[k])
        } else {
            after.notes[k] == mine[k - kept.len()] && after.notes[k].id.value == store.next_id + (k
                - kept.len())
        } by {
            if k < kept.len() {
                assert(after.notes[k] == kept[k]);
                let i = choose|i: int| k <= i < store.notes.len() && store.notes[i] == kept[k];
                assert(store.notes[i].id.value < store.next_id);
            }
        }
        assert forall|k: int, l: int| 0 <= k < l < after.notes.len() implies (
        #[trigger] after.notes[k]).id != (#[trigger] after.notes[l]).id by {
            if l < kept.len() {
                let (i, j) = choose|i: int, j: int|
                    0 <= i < j < store.notes.len() && store.notes[i] == kept[k] && store.notes[j]
                        == kept[l];
                assert(store.notes[i].id != store.notes[j].id);
                assert(after.notes[k] == kept[k] && after.notes[l] == kept[l]);
            }
        }
        assert(after.well_formed());
        assert forall|k: int| 0 <= k < after.notes.len() - 1 implies shown(
            #[trigger] after.notes[k],
        ).id != made.id by {
            lemma_shown(after.notes[k]);
            if shown(after.notes[k]).id == made.id {
                lemma_uuid_text_injective(after.notes[k].id.value, mine.last().id.value);
            }
        }
        assert forall|i: int, k: int|
            0 <= i < store.notes.len() && (#[trigger] store.notes[i]).user_id == user && 0 <= k
                < after.notes.len() implies (#[trigger] after.notes[k]).id != store.notes[i].id by {
            assert(store.notes[i].id.value < store.next_id);
            if k < kept.len() {
                let j = choose|j: int| 0 <= j < store.notes.len() && store.notes[j] == after.notes[k];
                assert(store.notes[j].user_id != user);
                if i < j {
                    assert(store.notes[i].id != store.notes[j].id);
                } else {
                    assert(store.notes[j].id != store.notes[i].id);
                }
            }
        }
        assert forall|i: int|
            0 <= i < store.notes.len() && (#[trigger] store.notes[i]).user_id
                != user implies after.notes.contains(store.notes[i]) by {
            assert(kept.contains(store.notes[i]));
            let k = choose|k: int| 0 <= k < kept.len() && kept[k] == store.notes[i];
            assert(after.notes[k] == store.notes[i]);
        }
    }
}

/// The note that a create returns is there when its user's notes are
/// listed again, with the title and content of the request and no
/// `deleted`; and it is the only note listed under its `id`.
pub proof fn law_created_note_is_listed(store: StoreView, note: NoteView, now: Timestamp)
    requires
        store.well_formed(),
        note.id.len() == 0,
    ensures
        creation(store, note, now) matches (after, Ok(made)) ==> ({
            &&& made.title == note.title
            &&& made.content == note.content
            &&& made.deleted is None
            &&& listing(after, note.user_id) matches Ok(notes)
            &&& notes.contains(made)
            &&& forall|k: int| 0 <= k < notes.len() && (#[trigger] notes[k]).id == made.id ==> notes[k] == made
        }),
{
    lemma_creation(store, note, now);
    law_create_resets_notes_of_user(store, note, now);
    if creation(store, note, now).1 is Ok {
        let user = identifier(note.user_id);
        let kept = without_user(store.notes, user);
        let after = creation(store, note, now).0;
        let last = after.notes.len() - 1;
        let made = shown(after.notes[last]);
        assert(all_showable(after, user)) by {
            assert forall|j: int|
                0 <= j < after.notes.len() && active_for(
                    #[trigger] after.notes[j],
                    user,
                ) implies showable(after.notes[j]) by {
                assert(j >= kept.len());
            }
        }
        assert(active_for(after.notes[last], user));
        law_listing_is_complete(after, note.user_id, last);
        law_listing_shows_active_notes_newest_first(after, note.user_id);
        let notes = listing(after, note.user_id)->Ok_0;
        let all = newest_first(after.notes, user);
        assert forall|k: int| 0 <= k < notes.len() && (#[trigger] notes[k]).id
            == made.id implies notes[k] == made by {
            assert(notes[k] == shown(all[k]) && after.notes.contains(all[k]));
            let j = choose|j: int| 0 <= j < after.notes.len() && after.notes[j] == all[k];
            lemma_shown(all[k]);
            lemma_uuid_text_injective(all[k].id.value, after.notes[last].id.value);
        }
    }
}

/// Replacing a note that the caller does not own is `NotFound`: where no
/// note of the table has both the `id` and the `user_id` of the request,
/// nothing is changed.
pub proof fn law_replace_of_unowned_note_is_not_found(
    store: StoreView,
    note: NoteView,
    now: Timestamp,
)
    ensures
        is_identifier(note.user_id) && note.id.len() > 0 && is_identifier(note.id) && (forall|
            i: int,
        |
            0 <= i < store.notes.len() ==> !addressed(
                #[trigger] store.notes[i],
                identifier(note.id),
                identifier(note.user_id),
            )) ==> creation(store, note, now) == (store, Err::<NoteView, StatusView>(not_found())),
{
    lemma_position_found(store.notes, identifier(note.id), identifier(note.user_id), 0);
}

/// Deleting a note that is not there, or not the caller's, is `NotFound`:
/// where no note of the table has both the `note_id` and the `user_id` of
/// the request, nothing is changed.
pub proof fn law_delete_of_missing_note_is_not_found(
    store: StoreView,
    note_id: Seq<char>,
    user_id: Seq<char>,
    now: Timestamp,
)
    ensures
        is_identifier(note_id) && is_identifier(user_id) && (forall|i: int|
            0 <= i < store.notes.len() ==> !addressed(
                #[trigger] store.notes[i],
                identifier(note_id),
                identifier(user_id),
            )) ==> deletion(store, note_id, user_id, now) == (
            store,
            Err::<NoteView, StatusView>(not_found()),
        ),
{
    lemma_position_found(store.notes, identifier(note_id), identifier(user_id), 0);
}

/// Deleting a note that the caller owns stamps it and hides it.
///
/// Where the note at position `i` has the `note_id` and the `user_id` of
/// the request, the delete succeeds exactly when the stamped note can be
/// shown. Then the table holds the stamped note in place of the note, the
/// note returned has `deleted` set, and a listing of the user's notes that
/// follows holds no note with its `id`. Otherwise the failure is `Internal`
/// and the table is as it was.
pub proof fn law_delete_stamps_and_hides(
    store: StoreView,
    note_id: Seq<char>,
    user_id: Seq<char>,
    now: Timestamp,
    i: int,
)
    requires
        store.well_formed(),
        0 <= i < store.notes.len(),
    ensures
        is_identifier(note_id) && is_identifier(user_id) && addressed(
            store.notes[i],
            identifier(note_id),
            identifier(user_id),
        ) ==> ({
            let gone = stamped(store.notes[i], now);
            let after = store.with_notes(store.notes.update(i, gone));
            if showable(gone) {
                &&& deletion(store, note_id, user_id, now) == (
                    after,
                    Ok::<NoteView, StatusView>(shown(gone)),
                )
                &&& shown(gone).deleted is Some
                &&& shown(gone).id == uuid_text(identifier_value(note_id))
                &&& listing(after, user_id) matches Ok(notes)
                &&& forall|k: int| 0 <= k < notes.len() ==> (#[trigger] notes[k]).id != shown(gone).id
            } else {
                deletion(store, note_id, user_id, now) == (
                    store,
                    Err::<NoteView, StatusView>(
                        StatusView { code: Code::Internal, message: unknown_message() },
                    ),
                )
            }
        }),
{
    let id = identifier(note_id);
    let user = identifier(user_id);
    if is_identifier(note_id) && is_identifier(user_id) && addressed(store.notes[i], id, user) {
        lemma_position_found(store.notes, id, user, 0);
        let at = store.position(id, user);
        assert(at == i) by {
            if at < i {
                assert(store.notes[at].id != store.notes[i].id);
            }
        }
        let gone = stamped(store.notes[i], now);
        let after = store.with_notes(store.notes.update(i, gone));
        lemma_shown(gone);
        if showable(gone) {
            law_listing_shows_active_notes_newest_first(after, user_id);
            let notes = listing(after, user_id)->Ok_0;
            let all = newest_first(after.notes, user);
            assert forall|k: int| 0 <= k < notes.len() implies (#[trigger] notes[k]).id != shown(
                gone,
            ).id by {
                assert(notes[k] == shown(all[k]) && after.notes.contains(all[k]));
                let j = choose|j: int| 0 <= j < after.notes.len() && after.notes[j] == all[k];
                assert(all[k].deleted is None);
                assert(j != i);
                assert(after.notes[j] == store.notes[j]);
                if j < i {
                    assert(store.notes[j].id != store.notes[i].id);
                } else {
                    assert(store.notes[i].id != store.notes[j].id);
                }
                lemma_shown(all[k]);
                if notes[k].id == shown(gone).id {
                    lemma_uuid_text_injective(all[k].id.value, gone.id.value);
                }
            }
        }
    }
}

/// A unit of work is atomic: one that fails leaves the table as it was.
pub proof fn law_failed_work_changes_nothing(
    store: StoreView,
    operation: OperationView,
    now: Timestamp,
)
    ensures
        effect(store, operation, now).1 is Err ==> effect(store, operation, now).0 == store,
{
    lemma_outcome_is_effect(store, operation, now);
}

/// A unit of work keeps what the table stands for.
///
/// Whatever the work and however it ends, the table it leaves is well
/// formed and follows the table it began on: no identifier is used for a
/// second note, and a note keeps its owner and its instant of creation, and
/// stays deleted once it is.
pub proof fn law_work_keeps_history(store: StoreView, operation: OperationView, now: Timestamp)
    requires
        store.well_formed(),
    ensures
        effect(store, operation, now).0.well_formed(),
        follows(store, effect(store, operation, now).0),
{
    lemma_outcome_is_effect(store, operation, now);
    lemma_follows_itself(store);
    let last = (operation.len() - 1) as nat;
    lemma_run_steps_follow(store, operation, now, last);
    if let Ok(before) = run_steps(store, operation, now, last) {
        lemma_apply_follows(before, operation.step(last as int).statement, now);
        if let Ok((after, _)) = before.apply(operation.step(last as int).statement, now) {
            lemma_follows_on(store, before, after);
        }
    }
}

/// Deleting twice stamps twice: a note that is deleted already is found
/// again by a second delete, which sets `deleted` to the later instant.
pub proof fn law_second_delete_stamps_again(
    store: StoreView,
    note_id: Seq<char>,
    user_id: Seq<char>,
    first: Timestamp,
    second: Timestamp,
)
    requires
        store.well_formed(),
    ensures
        deletion(store, note_id, user_id, first) matches (after, Ok(gone)) ==> (deletion(
            after,
            note_id,
            user_id,
            second,
        ).1 matches Ok(again) ==> again.deleted == Some(second.text()) && again.id == gone.id),
{
    let id = identifier(note_id);
    let user = identifier(user_id);
    if deletion(store, note_id, user_id, first).1 is Ok {
        lemma_position_found(store.notes, id, user, 0);
        let at = store.position(id, user);
        let gone = stamped(store.notes[at], first);
        let after = store.with_notes(store.notes.update(at, gone));
        lemma_shown(gone);
        assert(deletion(store, note_id, user_id, first).0 == after);
        lemma_position_found(after.notes, id, user, 0);
        let found = after.position(id, user);
        assert(found == at) by {
            assert(addressed(after.notes[at], id, user));
            if found < at {
                assert(after.notes[found] == store.notes[found]);
            }
        }
        lemma_shown(stamped(after.notes[at], second));
    }
}

/// A unit of work moves forward only, and ends once.
///
/// Whatever event arrives, the work stays the same work. A final action
/// comes exactly with a terminal phase, and a terminal phase is never left:
/// what was committed stays committed, what was rolled back stays rolled
/// back. The transaction is opened only for a transactional work, right
/// after the connection was acquired. The commit is asked for only when the
/// last step of a transactional work has completed, and a note is returned
/// only when the commit has succeeded. Rows are handed on to be streamed
/// only by a listing.
pub proof fn law_work_moves_forward(tx: TransactionView, event: EventView)
    requires
        tx.well_formed(),
    ensures
        ({
            let (next, action) = tx.advance(event);
            &&& next.operation == tx.operation
            &&& next.well_formed()
            &&& action.is_final() <==> next.phase is Committed || next.phase is RolledBack
            &&& tx.phase is Committed ==> next.phase is Committed && action is Fail
            &&& tx.phase is RolledBack ==> next.phase is RolledBack && action is Fail
            &&& action is Begin ==> tx.operation.transactional() && tx.phase is Acquiring && event
                is Acquired
            &&& action is Commit ==> tx.operation.transactional() && event is Completed && (
            tx.phase matches PhaseView::Open { at } && at + 1 == tx.operation.len())
            &&& action is Reply ==> tx.phase is Committing && event is Committed
            &&& action is Stream ==> tx.operation is List && event is Completed
            &&& action matches ActionView::Run { step } ==> (next.phase matches PhaseView::Open {
                at,
            } && step == tx.operation.step(at as int))
        }),
{
}

/// A stream runs through its rows once, and ends once.
///
/// Whatever the driver reports, the rows stay the same and the cursor does
/// not go back. The stream is closed exactly when it ends, and one that
/// has ended, or whose consumer is gone, sends nothing more. A note that
/// is sent is the whole note of the row at the cursor, and with a consumer
/// that stays, what was still to come is that note and then what is still
/// to come.
pub proof fn law_stream_ends_once(stream: ResponderView, signal: Signal)
    requires
        stream.well_formed(),
    ensures
        ({
            let (next, emit) = stream.poll(signal);
            &&& next.well_formed()
            &&& next.rows == stream.rows
            &&& next.next >= stream.next
            &&& emit is Close <==> next.closed
            &&& stream.closed || signal == Signal::Gone ==> emit is Close
            &&& emit matches EmitView::Send { note } ==> {
                &&& map_row(Some(stream.rows[stream.next as int])) == Ok::<NoteView, RowError>(note)
                &&& next.next == stream.next + 1
                &&& stream.pending() == seq![note] + next.pending()
            }
            &&& emit is Close && signal == Signal::Ready ==> stream.pending().len() == 0
        }),
{
    let (next, emit) = stream.poll(signal);
    if let EmitView::Send { note } = emit {
        assert(maps_at(stream.rows, stream.next as int));
        lemma_first_failure_found(stream.rows, stream.next as int + 1);
        assert(first_failure(stream.rows, stream.next as int) == first_failure(
            stream.rows,
            stream.next as int + 1,
        ));
        assert(stream.pending() =~= seq![note] + next.pending());
    }
}

} // verus!
