//! The note as callers see it, and the messages that address notes.

use vstd::prelude::*;

verus! {

/// A note as it crosses the boundary: identifiers and instants in their text
/// form, `deleted` present exactly for a soft-deleted note.
#[derive(Clone, Debug, PartialEq, Eq)]
pub struct Note {
    pub id: String,
    pub user_id: String,
    pub title: String,
    pub content: String,
    pub created: String,
    pub updated: String,
    pub deleted: Option<String>,
}

/// The mathematical value of a [`Note`].
pub struct NoteView {
    pub id: Seq<char>,
    pub user_id: Seq<char>,
    pub title: Seq<char>,
    pub content: Seq<char>,
    pub created: Seq<char>,
    pub updated: Seq<char>,
    pub deleted: Option<Seq<char>>,
}

impl View for Note {
    type V = NoteView;

    open spec fn view(&self) -> NoteView {
        NoteView {
            id: self.id@,
            user_id: self.user_id@,
            title: self.title@,
            content: self.content@,
            created: self.created@,
            updated: self.updated@,
            deleted: match self.deleted {
                Some(at) => Some(at@),
                None => None,
            },
        }
    }
}

/// The views of a sequence of notes, in order.
pub open spec fn note_views(notes: Seq<Note>) -> Seq<NoteView> {
    notes.map_values(|n: Note| n@)
}

/// Addresses all notes of one user.
#[derive(Clone, Debug, PartialEq, Eq)]
pub struct UserId {
    pub user_id: String,
}

/// Addresses one note of one user.
#[derive(Clone, Debug, PartialEq, Eq)]
pub struct NoteId {
    pub note_id: String,
    pub user_id: String,
}

} // verus!
