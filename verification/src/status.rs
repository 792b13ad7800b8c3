//! The error taxonomy shown to callers, and the translation of storage
//! failures into it.

use vstd::prelude::*;

verus! {

/// The closed set of failure kinds a caller can observe.
#[derive(Clone, Copy, Debug, PartialEq, Eq, Structural)]
pub enum Code {
    /// An identifier in the request is malformed.
    InvalidArgument,
    /// No row matches the key of a point lookup, update or delete.
    NotFound,
    /// Any other storage failure.
    Internal,
    /// No connection could be acquired from the pool.
    Unavailable,
}

/// A terminal error: its kind and a human-readable detail.
#[derive(Clone, Debug, PartialEq, Eq)]
pub struct Status {
    pub code: Code,
    pub message: String,
}

/// The mathematical value of a [`Status`].
pub struct StatusView {
    pub code: Code,
    pub message: Seq<char>,
}

impl View for Status {
    type V = StatusView;

    open spec fn view(&self) -> StatusView {
        StatusView { code: self.code, message: self.message@ }
    }
}

/// A failure reported by the storage layer.
#[derive(Clone, Debug, PartialEq, Eq)]
pub enum StorageError {
    /// The database reported a data-integrity or query error.
    Database { message: String },
    /// A statement that must yield a row yielded none.
    RowNotFound,
    /// A row lacks a column that was asked for by name.
    ColumnNotFound { name: String },
    /// A column holds a value of another shape than the one asked for.
    ColumnDecode { name: String },
    /// No connection could be acquired from the pool.
    Pool { detail: String },
    /// The transaction could not be opened or committed.
    Transaction { detail: String },
    /// Any failure not told apart above.
    Other,
}

/// The mathematical value of a [`StorageError`].
pub enum StorageErrorView {
    Database { message: Seq<char> },
    RowNotFound,
    ColumnNotFound { name: Seq<char> },
    ColumnDecode { name: Seq<char> },
    Pool { detail: Seq<char> },
    Transaction { detail: Seq<char> },
    Other,
}

impl View for StorageError {
    type V = StorageErrorView;

    open spec fn view(&self) -> StorageErrorView {
        match self {
            StorageError::Database { message } => StorageErrorView::Database { message: message@ },
            StorageError::RowNotFound => StorageErrorView::RowNotFound,
            StorageError::ColumnNotFound { name } => StorageErrorView::ColumnNotFound { name: name@ },
            StorageError::ColumnDecode { name } => StorageErrorView::ColumnDecode { name: name@ },
            StorageError::Pool { detail } => StorageErrorView::Pool { detail: detail@ },
            StorageError::Transaction { detail } => StorageErrorView::Transaction { detail: detail@ },
            StorageError::Other => StorageErrorView::Other,
        }
    }
}

/// The message of every `NotFound` status.
pub open spec fn not_found_message() -> Seq<char> {
    "Note not found"@
}

/// The message of a failure that carries no detail of its own.
pub open spec fn unknown_message() -> Seq<char> {
    "Unknown error"@
}

/// The status that a storage failure is reported as.
pub open spec fn status_of(error: StorageErrorView) -> StatusView {
    match error {
        StorageErrorView::Database { message } => StatusView { code: Code::Internal, message },
        StorageErrorView::RowNotFound => StatusView {
            code: Code::NotFound,
            message: not_found_message(),
        },
        StorageErrorView::ColumnNotFound { name } => StatusView {
            code: Code::NotFound,
            message: not_found_message(),
        },
        StorageErrorView::ColumnDecode { name } => StatusView {
            code: Code::Internal,
            message: unknown_message(),
        },
        StorageErrorView::Pool { detail } => StatusView { code: Code::Unavailable, message: detail },
        StorageErrorView::Transaction { detail } => StatusView {
            code: Code::Internal,
            message: detail,
        },
        StorageErrorView::Other => StatusView { code: Code::Internal, message: unknown_message() },
    }
}

impl Status {
    /// A `NotFound` status with the fixed message.
    pub fn not_found() -> (status: Status)
        ensures
            status@ == (StatusView { code: Code::NotFound, message: not_found_message() }),
    {
        Status { code: Code::NotFound, message: "Note not found".to_owned() }
    }

    /// An `Internal` status with the given detail.
    pub fn internal(message: String) -> (status: Status)
        ensures
            status@ == (StatusView { code: Code::Internal, message: message@ }),
    {
        Status { code: Code::Internal, message }
    }

    /// An `Internal` status for a failure without detail.
    pub fn unknown() -> (status: Status)
        ensures
            status@ == (StatusView { code: Code::Internal, message: unknown_message() }),
    {
        Status { code: Code::Internal, message: "Unknown error".to_owned() }
    }
}

impl StorageError {
    /// Translates a storage failure into the status shown to the caller.
    ///
    /// Database errors pass their detail through as `Internal`; a missing row
    /// and a missing column both read as `NotFound`; a pool failure is
    /// `Unavailable`; a failed begin or commit is `Internal` with its detail;
    /// everything else is `Internal` without detail.
    pub fn into_status(self) -> (status: Status)
        ensures
            status@ == status_of(self@),
    {
        match self {
            StorageError::Database { message } => Status::internal(message),
            StorageError::RowNotFound => Status::not_found(),
            StorageError::ColumnNotFound { name: _ } => Status::not_found(),
            StorageError::ColumnDecode { name: _ } => Status::unknown(),
            StorageError::Pool { detail } => Status { code: Code::Unavailable, message: detail },
            StorageError::Transaction { detail } => Status::internal(detail),
            StorageError::Other => Status::unknown(),
        }
    }
}

} // verus!
