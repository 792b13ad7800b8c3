//! Rows as storage returns them, and their conversion into notes.

use crate::note::{Note, NoteView};
use crate::status::{Status, StatusView, StorageError, StorageErrorView, status_of};
use crate::ident::{Identifier, uuid_text};
use crate::timestamp::{Timestamp, timestamp_text};
use vstd::prelude::*;

verus! {

/// What reading one column of a row by name gave.
#[derive(Clone, Debug, PartialEq, Eq)]
pub enum Field<T> {
    /// The column holds a value of the shape that was asked for.
    Value(T),
    /// The column holds SQL `NULL`.
    Null,
    /// The row has no column of that name.
    Missing,
    /// The column holds a value of another shape.
    WrongType,
}

/// One row of the `notes` table as read from a result set: for each column
/// of the schema, what reading it gave. Identifiers are held by their
/// 128-bit value, instants in nanoseconds since the Unix epoch.
#[derive(Clone, Debug, PartialEq, Eq)]
pub struct RawRow {
    pub id: Field<u128>,
    pub user_id: Field<u128>,
    pub created: Field<i128>,
    pub updated: Field<i128>,
    pub deleted: Field<i128>,
    pub title: Field<String>,
    pub content: Field<String>,
}

/// The mathematical value of a [`RawRow`].
pub struct RawRowView {
    pub id: Field<u128>,
    pub user_id: Field<u128>,
    pub created: Field<i128>,
    pub updated: Field<i128>,
    pub deleted: Field<i128>,
    pub title: Field<Seq<char>>,
    pub content: Field<Seq<char>>,
}

/// The value of a text column.
pub open spec fn text_field(field: Field<String>) -> Field<Seq<char>> {
    match field {
        Field::Value(text) => Field::Value(text@),
        Field::Null => Field::Null,
        Field::Missing => Field::Missing,
        Field::WrongType => Field::WrongType,
    }
}

impl View for RawRow {
    type V = RawRowView;

    open spec fn view(&self) -> RawRowView {
        RawRowView {
            id: self.id,
            user_id: self.user_id,
            created: self.created,
            updated: self.updated,
            deleted: self.deleted,
            title: text_field(self.title),
            content: text_field(self.content),
        }
    }
}

/// The views of a sequence of rows, in order.
pub open spec fn row_views(rows: Seq<RawRow>) -> Seq<RawRowView> {
    rows.map_values(|r: RawRow| r@)
}

/// The columns of the `notes` table, in the order in which a row is read.
#[derive(Clone, Copy, Debug, PartialEq, Eq, Structural)]
pub enum Column {
    Id,
    UserId,
    Created,
    Updated,
    Deleted,
    Title,
    Content,
}

/// How a column of a row can fail to be what a note needs.
#[derive(Clone, Copy, Debug, PartialEq, Eq, Structural)]
pub enum Fault {
    /// The row has no such column.
    Missing,
    /// A required column holds `NULL`.
    Null,
    /// The column holds a value of another shape.
    WrongType,
    /// The column holds an instant that has no text form.
    OutOfRange,
}

/// Why a row did not become a note.
#[derive(Clone, Copy, Debug, PartialEq, Eq, Structural)]
pub enum RowError {
    /// Storage matched no row.
    NotFound,
    /// A row is there, but a column of it is not what a note needs.
    MalformedRow { column: Column, fault: Fault },
}

/// The fault, if any, of a column that must hold a value.
pub open spec fn required_fault<T>(field: Field<T>) -> Option<Fault> {
    match field {
        Field::Value(_) => None,
        Field::Null => Some(Fault::Null),
        Field::Missing => Some(Fault::Missing),
        Field::WrongType => Some(Fault::WrongType),
    }
}

/// The fault, if any, of a column that must hold an instant.
pub open spec fn instant_fault(field: Field<i128>) -> Option<Fault> {
    match field {
        Field::Value(nanos) => if timestamp_text(nanos) is Some {
            None
        } else {
            Some(Fault::OutOfRange)
        },
        _ => required_fault(field),
    }
}

/// The fault, if any, of a column that holds an instant or `NULL`.
pub open spec fn optional_instant_fault(field: Field<i128>) -> Option<Fault> {
    match field {
        Field::Null => None,
        _ => instant_fault(field),
    }
}

/// The fault, if any, of one column of a row.
pub open spec fn column_fault(row: RawRowView, column: Column) -> Option<Fault> {
    match column {
        Column::Id => required_fault(row.id),
        Column::UserId => required_fault(row.user_id),
        Column::Created => instant_fault(row.created),
        Column::Updated => instant_fault(row.updated),
        Column::Deleted => optional_instant_fault(row.deleted),
        Column::Title => required_fault(row.title),
        Column::Content => required_fault(row.content),
    }
}

/// The error that names a faulty column of a row.
pub open spec fn malformed(row: RawRowView, column: Column) -> RowError {
    RowError::MalformedRow { column, fault: column_fault(row, column)->Some_0 }
}

/// The first column of a row, in reading order, that has a fault, with that
/// fault; `None` for a row that is all a note needs.
pub open spec fn first_fault(row: RawRowView) -> Option<RowError> {
    if column_fault(row, Column::Id) is Some {
        Some(malformed(row, Column::Id))
    } else if column_fault(row, Column::UserId) is Some {
        Some(malformed(row, Column::UserId))
    } else if column_fault(row, Column::Created) is Some {
        Some(malformed(row, Column::Created))
    } else if column_fault(row, Column::Updated) is Some {
        Some(malformed(row, Column::Updated))
    } else if column_fault(row, Column::Deleted) is Some {
        Some(malformed(row, Column::Deleted))
    } else if column_fault(row, Column::Title) is Some {
        Some(malformed(row, Column::Title))
    } else if column_fault(row, Column::Content) is Some {
        Some(malformed(row, Column::Content))
    } else {
        None
    }
}

/// The note that a row without fault stands for: identifiers and instants in
/// their text form, `deleted` present exactly where the column is not `NULL`.
pub open spec fn note_of(row: RawRowView) -> NoteView {
    NoteView {
        id: uuid_text(row.id->Value_0),
        user_id: uuid_text(row.user_id->Value_0),
        title: row.title->Value_0,
        content: row.content->Value_0,
        created: timestamp_text(row.created->Value_0)->Some_0,
        updated: timestamp_text(row.updated->Value_0)->Some_0,
        deleted: match row.deleted {
            Field::Value(nanos) => Some(timestamp_text(nanos)->Some_0),
            _ => None,
        },
    }
}

/// What mapping a row gives: `NotFound` for an absent row, `MalformedRow` for
/// a row with a faulty column, and otherwise the note.
pub open spec fn map_row(row: Option<RawRowView>) -> Result<NoteView, RowError> {
    match row {
        None => Err(RowError::NotFound),
        Some(row) => match first_fault(row) {
            Some(error) => Err(error),
            None => Ok(note_of(row)),
        },
    }
}

/// The view of an optional row.
pub open spec fn optional_row(row: Option<&RawRow>) -> Option<RawRowView> {
    match row {
        Some(row) => Some(row@),
        None => None,
    }
}

/// The view of the outcome of mapping a row.
pub open spec fn mapped(outcome: Result<Note, RowError>) -> Result<NoteView, RowError> {
    match outcome {
        Ok(note) => Ok(note@),
        Err(error) => Err(error),
    }
}

/// The storage failure that a mapping failure counts as.
pub open spec fn storage_error_of(error: RowError) -> StorageErrorView {
    match error {
        RowError::NotFound => StorageErrorView::RowNotFound,
        RowError::MalformedRow { column, fault: Fault::Missing } => StorageErrorView::ColumnNotFound {
            name: column.name(),
        },
        RowError::MalformedRow { column, fault } => StorageErrorView::ColumnDecode {
            name: column.name(),
        },
    }
}

/// The status that a mapping failure is reported as.
pub open spec fn row_status(error: RowError) -> StatusView {
    status_of(storage_error_of(error))
}

impl Column {
    /// The column's name in the schema.
    pub open spec fn name(self) -> Seq<char> {
        match self {
            Column::Id => "id"@,
            Column::UserId => "user_id"@,
            Column::Created => "created"@,
            Column::Updated => "updated"@,
            Column::Deleted => "deleted"@,
            Column::Title => "title"@,
            Column::Content => "content"@,
        }
    }

    /// The column's name in the schema.
    pub fn as_str(&self) -> (name: &'static str)
        ensures
            name@ == self.name(),
    {
        match self {
            Column::Id => "id",
            Column::UserId => "user_id",
            Column::Created => "created",
            Column::Updated => "updated",
            Column::Deleted => "deleted",
            Column::Title => "title",
            Column::Content => "content",
        }
    }
}

/// Reads a column that must hold an identifier.
fn read_identifier(field: &Field<u128>, column: Column) -> (read: Result<Identifier, RowError>)
    ensures
        match read {
            Ok(id) => *field == Field::Value(id.value),
            Err(error) => required_fault(*field) is Some && error == (RowError::MalformedRow {
                column,
                fault: required_fault(*field)->Some_0,
            }),
        },
{
    match field {
        Field::Value(value) => Ok(Identifier { value: *value }),
        Field::Null => Err(RowError::MalformedRow { column, fault: Fault::Null }),
        Field::Missing => Err(RowError::MalformedRow { column, fault: Fault::Missing }),
        Field::WrongType => Err(RowError::MalformedRow { column, fault: Fault::WrongType }),
    }
}

/// Reads a column that must hold text.
fn read_text(field: &Field<String>, column: Column) -> (read: Result<String, RowError>)
    ensures
        match read {
            Ok(text) => text_field(*field) == Field::Value(text@),
            Err(error) => required_fault(text_field(*field)) is Some && error == (
            RowError::MalformedRow { column, fault: required_fault(text_field(*field))->Some_0 }),
        },
{
    match field {
        Field::Value(text) => Ok(text.clone()),
        Field::Null => Err(RowError::MalformedRow { column, fault: Fault::Null }),
        Field::Missing => Err(RowError::MalformedRow { column, fault: Fault::Missing }),
        Field::WrongType => Err(RowError::MalformedRow { column, fault: Fault::WrongType }),
    }
}

/// Reads a column that must hold an instant, and renders it.
fn read_instant(field: &Field<i128>, column: Column) -> (read: Result<String, RowError>)
    ensures
        match read {
            Ok(text) => *field is Value && timestamp_text(field->Value_0) == Some(text@),
            Err(error) => instant_fault(*field) is Some && error == (RowError::MalformedRow {
                column,
                fault: instant_fault(*field)->Some_0,
            }),
        },
{
    match field {
        Field::Value(nanos) => match (Timestamp { nanos: *nanos }).to_text() {
            Some(text) => Ok(text),
            None => Err(RowError::MalformedRow { column, fault: Fault::OutOfRange }),
        },
        Field::Null => Err(RowError::MalformedRow { column, fault: Fault::Null }),
        Field::Missing => Err(RowError::MalformedRow { column, fault: Fault::Missing }),
        Field::WrongType => Err(RowError::MalformedRow { column, fault: Fault::WrongType }),
    }
}

/// Reads a column that holds an instant or `NULL`, and renders it.
fn read_optional_instant(field: &Field<i128>, column: Column) -> (read: Result<
    Option<String>,
    RowError,
>)
    ensures
        match read {
            Ok(Some(text)) => *field is Value && timestamp_text(field->Value_0) == Some(text@),
            Ok(None) => *field is Null,
            Err(error) => optional_instant_fault(*field) is Some && error == (
            RowError::MalformedRow { column, fault: optional_instant_fault(*field)->Some_0 }),
        },
{
    match field {
        Field::Null => Ok(None),
        _ => match read_instant(field, column) {
            Ok(text) => Ok(Some(text)),
            Err(error) => Err(error),
        },
    }
}

impl Note {
    /// Converts a row, or its absence, into a note.
    ///
    /// An absent row is `NotFound`. A row is read column by column in the
    /// order `id`, `user_id`, `created`, `updated`, `deleted`, `title`,
    /// `content`; the first column that is missing, of another shape, `NULL`
    /// where a value is required, or an instant without text form, makes the
    /// row `MalformedRow`. Otherwise the note holds every identifier and
    /// instant in its text form, and `deleted` exactly where the column is
    /// not `NULL`.
    pub fn try_from(row: Option<&RawRow>) -> (outcome: Result<Note, RowError>)
        ensures
            mapped(outcome) == map_row(optional_row(row)),
    {
        match row {
            None => Err(RowError::NotFound),
            Some(row) => {
                let id = match read_identifier(&row.id, Column::Id) {
                    Ok(id) => id,
                    Err(error) => { return Err(error); },
                };
                let user_id = match read_identifier(&row.user_id, Column::UserId) {
                    Ok(id) => id,
                    Err(error) => { return Err(error); },
                };
                let created = match read_instant(&row.created, Column::Created) {
                    Ok(text) => text,
                    Err(error) => { return Err(error); },
                };
                let updated = match read_instant(&row.updated, Column::Updated) {
                    Ok(text) => text,
                    Err(error) => { return Err(error); },
                };
                let deleted = match read_optional_instant(&row.deleted, Column::Deleted) {
                    Ok(text) => text,
                    Err(error) => { return Err(error); },
                };
                let title = match read_text(&row.title, Column::Title) {
                    Ok(text) => text,
                    Err(error) => { return Err(error); },
                };
                let content = match read_text(&row.content, Column::Content) {
                    Ok(text) => text,
                    Err(error) => { return Err(error); },
                };
                Ok(
                    Note {
                        id: id.to_text(),
                        user_id: user_id.to_text(),
                        title,
                        content,
                        created,
                        updated,
                        deleted,
                    },
                )
            },
        }
    }
}

impl RowError {
    /// The storage failure that this mapping failure counts as: an absent
    /// row is a missing row, a missing column is a missing column, and any
    /// other fault is a column of the wrong shape.
    pub fn into_storage_error(self) -> (error: StorageError)
        ensures
            error@ == storage_error_of(self),
    {
        match self {
            RowError::NotFound => StorageError::RowNotFound,
            RowError::MalformedRow { column, fault } => match fault {
                Fault::Missing => StorageError::ColumnNotFound { name: column.as_str().to_owned() },
                _ => StorageError::ColumnDecode { name: column.as_str().to_owned() },
            },
        }
    }

    /// Translates the mapping failure into the status shown to the caller:
    /// `NotFound` for an absent row and for a missing column, `Internal` for
    /// a column of the wrong shape.
    pub fn into_status(self) -> (status: Status)
        ensures
            status@ == row_status(self),
    {
        self.into_storage_error().into_status()
    }
}

} // verus!
