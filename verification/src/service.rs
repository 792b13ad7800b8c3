//! The three operations of the service: validating a request and choosing
//! the unit of work that carries it out.

use crate::ident::{Identifier, identifier_value, invalid_argument, is_identifier};
use crate::note::{Note, NoteId, NoteView, UserId};
use crate::operation::{Operation, OperationView};
use crate::status::{Status, StatusView};
use vstd::prelude::*;

verus! {

/// The view of the outcome of validating a request.
pub open spec fn planned(outcome: Result<Operation, Status>) -> Result<OperationView, StatusView> {
    match outcome {
        Ok(operation) => Ok(operation@),
        Err(status) => Err(status@),
    }
}

/// The identifier that a well-formed text stands for.
pub open spec fn identifier(text: Seq<char>) -> Identifier {
    Identifier { value: identifier_value(text) }
}

/// What a request to list the notes of a user asks for.
pub open spec fn list_plan(user_id: Seq<char>) -> Result<OperationView, StatusView> {
    if is_identifier(user_id) {
        Ok(OperationView::List { user_id: identifier(user_id) })
    } else {
        Err(invalid_argument(user_id))
    }
}

/// What a request to create or replace a note asks for.
pub open spec fn create_plan(note: NoteView) -> Result<OperationView, StatusView> {
    if !is_identifier(note.user_id) {
        Err(invalid_argument(note.user_id))
    } else if note.id.len() == 0 {
        Ok(
            OperationView::Create {
                user_id: identifier(note.user_id),
                title: note.title,
                content: note.content,
            },
        )
    } else if !is_identifier(note.id) {
        Err(invalid_argument(note.id))
    } else {
        Ok(
            OperationView::Replace {
                id: identifier(note.id),
                user_id: identifier(note.user_id),
                title: note.title,
                content: note.content,
            },
        )
    }
}

/// What a request to delete a note asks for.
pub open spec fn delete_plan(note_id: Seq<char>, user_id: Seq<char>) -> Result<
    OperationView,
    StatusView,
> {
    if !is_identifier(note_id) {
        Err(invalid_argument(note_id))
    } else if !is_identifier(user_id) {
        Err(invalid_argument(user_id))
    } else {
        Ok(OperationView::Delete { id: identifier(note_id), user_id: identifier(user_id) })
    }
}

/// Parses an identifier of a request, reporting a malformed one as
/// `InvalidArgument` with the parser's detail.
fn validate(text: &str) -> (outcome: Result<Identifier, Status>)
    ensures
        match outcome {
            Ok(id) => is_identifier(text@) && id == identifier(text@),
            Err(status) => !is_identifier(text@) && status@ == invalid_argument(text@),
        },
{
    match Identifier::parse(text) {
        Ok(id) => Ok(id),
        Err(error) => Err(error.into_status()),
    }
}

/// Lists the notes of a user.
///
/// A malformed `user_id` fails with `InvalidArgument` before storage is
/// touched. Otherwise the work is one query for the user's notes that are
/// not soft-deleted, most recently created first.
pub fn get_notes(request: &UserId) -> (outcome: Result<Operation, Status>)
    ensures
        planned(outcome) == list_plan(request.user_id@),
{
    let user_id = validate(request.user_id.as_str())?;
    Ok(Operation::List { user_id })
}

/// Creates a note, or replaces title and content of an existing one.
///
/// The `user_id` is validated first, then the `id` if it is not empty; a
/// malformed one fails with `InvalidArgument` before storage is touched.
/// With an `id`, the work is one update scoped to id and owner. Without,
/// it resets the user's notes: every note of the user is removed, the
/// filler notes are inserted, and then the note itself.
pub fn create_note(request: &Note) -> (outcome: Result<Operation, Status>)
    ensures
        planned(outcome) == create_plan(request@),
{
    let user_id = validate(request.user_id.as_str())?;
    if request.id.as_str().is_empty() {
        Ok(
            Operation::Create {
                user_id,
                title: request.title.clone(),
                content: request.content.clone(),
            },
        )
    } else {
        let id = validate(request.id.as_str())?;
        Ok(
            Operation::Replace {
                id,
                user_id,
                title: request.title.clone(),
                content: request.content.clone(),
            },
        )
    }
}

/// Soft-deletes a note.
///
/// The `note_id` is validated first, then the `user_id`; a malformed one
/// fails with `InvalidArgument` before storage is touched. Otherwise the
/// work is one update, scoped to id and owner, that stamps the note as
/// deleted.
pub fn delete_note(request: &NoteId) -> (outcome: Result<Operation, Status>)
    ensures
        planned(outcome) == delete_plan(request.note_id@, request.user_id@),
{
    let id = validate(request.note_id.as_str())?;
    let user_id = validate(request.user_id.as_str())?;
    Ok(Operation::Delete { id, user_id })
}

} // verus!
