//! The transaction executor: one unit of work run against storage, from
//! acquiring a connection to commit or rollback.
//!
//! The executor does no I/O. It is a state machine: the driver performs the
//! action it is handed, reports what came of it as an event, and is handed
//! the next action, until a final one ends the exchange.

use crate::note::{Note, NoteView};
use crate::operation::{Operation, OperationView};
use crate::row::{RawRow, RawRowView, RowError, map_row, row_status, row_views};
use crate::statement::{Step, StepView};
use crate::status::{Status, StatusView, StorageError, StorageErrorView, status_of};
use vstd::prelude::*;

verus! {

/// Where a unit of work stands.
#[derive(Clone, Debug, PartialEq, Eq)]
pub enum Phase {
    /// Nothing has been asked of storage yet.
    Idle,
    /// A connection has been asked for.
    Acquiring,
    /// The opening of the transaction has been asked for.
    Beginning,
    /// The step at position `at` has been sent.
    Open { at: usize },
    /// Every step is done, the commit has been asked for, and `note` waits
    /// to be returned.
    Committing { note: Note },
    /// The work is done and its effects are visible.
    Committed,
    /// The work was given up; none of its effects is visible.
    RolledBack,
}

/// The mathematical value of a [`Phase`].
pub enum PhaseView {
    Idle,
    Acquiring,
    Beginning,
    Open { at: nat },
    Committing { note: NoteView },
    Committed,
    RolledBack,
}

impl View for Phase {
    type V = PhaseView;

    open spec fn view(&self) -> PhaseView {
        match self {
            Phase::Idle => PhaseView::Idle,
            Phase::Acquiring => PhaseView::Acquiring,
            Phase::Beginning => PhaseView::Beginning,
            Phase::Open { at } => PhaseView::Open { at: *at as nat },
            Phase::Committing { note } => PhaseView::Committing { note: note@ },
            Phase::Committed => PhaseView::Committed,
            Phase::RolledBack => PhaseView::RolledBack,
        }
    }
}

/// What the driver reports back.
#[derive(Clone, Debug, PartialEq, Eq)]
pub enum Event {
    /// The exchange begins.
    Start,
    /// A connection has been acquired.
    Acquired,
    /// The transaction has been opened.
    Begun,
    /// The statement has run; these are the rows it returned.
    Completed { rows: Vec<RawRow> },
    /// The transaction has been committed.
    Committed,
    /// The action failed.
    Failed { error: StorageError },
}

/// The mathematical value of an [`Event`].
pub enum EventView {
    Start,
    Acquired,
    Begun,
    Completed { rows: Seq<RawRowView> },
    Committed,
    Failed { error: StorageErrorView },
}

impl View for Event {
    type V = EventView;

    open spec fn view(&self) -> EventView {
        match self {
            Event::Start => EventView::Start,
            Event::Acquired => EventView::Acquired,
            Event::Begun => EventView::Begun,
            Event::Completed { rows } => EventView::Completed { rows: row_views(rows@) },
            Event::Committed => EventView::Committed,
            Event::Failed { error } => EventView::Failed { error: error@ },
        }
    }
}

/// What the driver is to do next.
#[derive(Clone, Debug, PartialEq, Eq)]
pub enum Action {
    /// Acquire a connection from the pool.
    Acquire,
    /// Open a transaction on the connection.
    Begin,
    /// Run the statement of this step.
    Run { step: Step },
    /// Commit the transaction.
    Commit,
    /// Final: answer with this note.
    Reply { note: Note },
    /// Final: answer with the stream that these rows give.
    Stream { rows: Vec<RawRow> },
    /// Final: answer with this error. A transaction that is open is dropped
    /// without commit, which rolls it back.
    Fail { status: Status },
}

/// The mathematical value of an [`Action`].
pub enum ActionView {
    Acquire,
    Begin,
    Run { step: StepView },
    Commit,
    Reply { note: NoteView },
    Stream { rows: Seq<RawRowView> },
    Fail { status: StatusView },
}

impl View for Action {
    type V = ActionView;

    open spec fn view(&self) -> ActionView {
        match self {
            Action::Acquire => ActionView::Acquire,
            Action::Begin => ActionView::Begin,
            Action::Run { step } => ActionView::Run { step: step@ },
            Action::Commit => ActionView::Commit,
            Action::Reply { note } => ActionView::Reply { note: note@ },
            Action::Stream { rows } => ActionView::Stream { rows: row_views(rows@) },
            Action::Fail { status } => ActionView::Fail { status: status@ },
        }
    }
}

impl ActionView {
    /// Whether the action ends the exchange.
    pub open spec fn is_final(self) -> bool {
        self is Reply || self is Stream || self is Fail
    }
}

/// A unit of work in progress.
pub struct Transaction {
    operation: Operation,
    phase: Phase,
}

/// The mathematical value of a [`Transaction`].
pub struct TransactionView {
    pub operation: OperationView,
    pub phase: PhaseView,
}

impl TransactionView {
    /// The same work in another phase.
    pub open spec fn at(self, phase: PhaseView) -> TransactionView {
        TransactionView { operation: self.operation, phase }
    }

    /// A step that is marked as sent is a step of the work.
    pub open spec fn well_formed(self) -> bool {
        self.phase matches PhaseView::Open { at } ==> at < self.operation.len()
    }

    /// Giving the work up: what was done is rolled back, and the caller gets
    /// the status.
    pub open spec fn abort(self, status: StatusView) -> (TransactionView, ActionView) {
        (self.at(PhaseView::RolledBack), ActionView::Fail { status })
    }

    /// What follows the rows of the last step.
    ///
    /// A listing hands all rows on to be streamed. Every other work wants
    /// exactly one row: it is mapped to a note and the commit is asked for;
    /// no row is `NotFound`, a row that does not map fails as the row mapper
    /// says, and more than one row is a failure without detail.
    pub open spec fn conclude(self, rows: Seq<RawRowView>) -> (TransactionView, ActionView) {
        if self.operation is List {
            (self.at(PhaseView::Committed), ActionView::Stream { rows })
        } else if rows.len() == 0 {
            self.abort(row_status(RowError::NotFound))
        } else if rows.len() == 1 {
            match map_row(Some(rows[0])) {
                Ok(note) => (self.at(PhaseView::Committing { note }), ActionView::Commit),
                Err(error) => self.abort(row_status(error)),
            }
        } else {
            self.abort(status_of(StorageErrorView::Other))
        }
    }

    /// The transition function: the next state and the action to perform,
    /// for a state and the event that arrived in it.
    ///
    /// From `Idle`, the start asks for a connection. With the connection, a
    /// transactional work opens its transaction and then sends its first
    /// step; a listing sends its one step at once. Each completed step is
    /// followed by the next; the rows of all but the last are dropped. After
    /// the last, see `conclude`. The commit done, the note is returned. A
    /// failure reported while anything is pending ends the work with the
    /// translated error. An event that the phase does not expect ends the
    /// work with a failure without detail; a work that was committed stays
    /// committed.
    pub open spec fn advance(self, event: EventView) -> (TransactionView, ActionView) {
        match (self.phase, event) {
            (PhaseView::Idle, EventView::Start) => (
                self.at(PhaseView::Acquiring),
                ActionView::Acquire,
            ),
            (PhaseView::Acquiring, EventView::Acquired) => if self.operation.transactional() {
                (self.at(PhaseView::Beginning), ActionView::Begin)
            } else {
                (
                    self.at(PhaseView::Open { at: 0 }),
                    ActionView::Run { step: self.operation.step(0) },
                )
            },
            (PhaseView::Beginning, EventView::Begun) => (
                self.at(PhaseView::Open { at: 0 }),
                ActionView::Run { step: self.operation.step(0) },
            ),
            (PhaseView::Open { at }, EventView::Completed { rows }) => if at + 1
                < self.operation.len() {
                (
                    self.at(PhaseView::Open { at: at + 1 }),
                    ActionView::Run { step: self.operation.step(at as int + 1) },
                )
            } else {
                self.conclude(rows)
            },
            (PhaseView::Committing { note }, EventView::Committed) => (
                self.at(PhaseView::Committed),
                ActionView::Reply { note },
            ),
            (PhaseView::Acquiring, EventView::Failed { error }) => self.abort(status_of(error)),
            (PhaseView::Beginning, EventView::Failed { error }) => self.abort(status_of(error)),
            (PhaseView::Open { .. }, EventView::Failed { error }) => self.abort(status_of(error)),
            (PhaseView::Committing { .. }, EventView::Failed { error }) => self.abort(
                status_of(error),
            ),
            (PhaseView::Committed, _) => (
                self,
                ActionView::Fail { status: status_of(StorageErrorView::Other) },
            ),
            _ => self.abort(status_of(StorageErrorView::Other)),
        }
    }
}

impl View for Transaction {
    type V = TransactionView;

    closed spec fn view(&self) -> TransactionView {
        TransactionView { operation: self.operation@, phase: self.phase@ }
    }
}

impl Transaction {
    #[verifier::type_invariant]
    spec fn sound(self) -> bool {
        self@.well_formed()
    }

    /// A unit of work of which nothing has been done yet.
    pub fn new(operation: Operation) -> (tx: Transaction)
        ensures
            tx@ == (TransactionView { operation: operation@, phase: PhaseView::Idle }),
    {
        Transaction { operation, phase: Phase::Idle }
    }

    /// The work that is being carried out.
    pub fn operation(&self) -> (operation: &Operation)
        ensures
            operation@ == self@.operation,
    {
        &self.operation
    }

    /// Where the work stands.
    pub fn phase(&self) -> (phase: &Phase)
        ensures
            phase@ == self@.phase,
            self@.well_formed(),
    {
        proof {
            use_type_invariant(self);
        }
        &self.phase
    }

    /// Gives the work up with a failure without detail.
    fn misused(operation: Operation) -> (next: (Transaction, Action))
        ensures
            (next.0@, next.1@) == (TransactionView {
                operation: operation@,
                phase: PhaseView::Idle,
            }).abort(status_of(StorageErrorView::Other)),
    {
        (Transaction { operation, phase: Phase::RolledBack }, Action::Fail { status: Status::unknown() })
    }

    /// Gives the work up with the translated storage failure.
    fn failed(operation: Operation, error: StorageError) -> (next: (Transaction, Action))
        ensures
            (next.0@, next.1@) == (TransactionView {
                operation: operation@,
                phase: PhaseView::Idle,
            }).abort(status_of(error@)),
    {
        (
            Transaction { operation, phase: Phase::RolledBack },
            Action::Fail { status: error.into_status() },
        )
    }

    /// Sends the step at position `at`.
    fn send(operation: Operation, at: usize) -> (next: (Transaction, Action))
        requires
            at < operation@.len(),
        ensures
            next.0@ == (TransactionView {
                operation: operation@,
                phase: PhaseView::Open { at: at as nat },
            }),
            next.1@ == (ActionView::Run { step: operation@.step(at as int) }),
    {
        let step = operation.step(at);
        (Transaction { operation, phase: Phase::Open { at } }, Action::Run { step })
    }

    /// Decides what follows the rows of the last step.
    fn conclude(operation: Operation, rows: Vec<RawRow>) -> (next: (Transaction, Action))
        ensures
            (next.0@, next.1@) == (TransactionView {
                operation: operation@,
                phase: PhaseView::Idle,
            }).conclude(row_views(rows@)),
    {
        if let Operation::List { .. } = operation {
            return (Transaction { operation, phase: Phase::Committed }, Action::Stream { rows });
        }
        if rows.len() > 1 {
            return Self::misused(operation);
        }
        let row = if rows.len() == 1 {
            Some(&rows[0])
        } else {
            None
        };
        match Note::try_from(row) {
            Ok(note) => (
                Transaction { operation, phase: Phase::Committing { note } },
                Action::Commit,
            ),
            Err(error) => (
                Transaction { operation, phase: Phase::RolledBack },
                Action::Fail { status: error.into_status() },
            ),
        }
    }

    /// Takes the event that the last action led to, and says what to do
    /// next: the transition that `advance` defines.
    pub fn step(self, event: Event) -> (next: (Transaction, Action))
        ensures
            (next.0@, next.1@) == self@.advance(event@),
            self@.well_formed(),
            next.0@.well_formed(),
    {
        proof {
            use_type_invariant(&self);
        }
        let Transaction { operation, phase } = self;
        match phase {
            Phase::Idle => match event {
                Event::Start => (
                    Transaction { operation, phase: Phase::Acquiring },
                    Action::Acquire,
                ),
                _ => Self::misused(operation),
            },
            Phase::Acquiring => match event {
                Event::Acquired => if operation.transactional() {
                    (Transaction { operation, phase: Phase::Beginning }, Action::Begin)
                } else {
                    Self::send(operation, 0)
                },
                Event::Failed { error } => Self::failed(operation, error),
                _ => Self::misused(operation),
            },
            Phase::Beginning => match event {
                Event::Begun => Self::send(operation, 0),
                Event::Failed { error } => Self::failed(operation, error),
                _ => Self::misused(operation),
            },
            Phase::Open { at } => match event {
                Event::Completed { rows } => if at + 1 < operation.len() {
                    Self::send(operation, at + 1)
                } else {
                    Self::conclude(operation, rows)
                },
                Event::Failed { error } => Self::failed(operation, error),
                _ => Self::misused(operation),
            },
            Phase::Committing { note } => match event {
                Event::Committed => (
                    Transaction { operation, phase: Phase::Committed },
                    Action::Reply { note },
                ),
                Event::Failed { error } => Self::failed(operation, error),
                _ => Self::misused(operation),
            },
            Phase::Committed => (
                Transaction { operation, phase: Phase::Committed },
                Action::Fail { status: Status::unknown() },
            ),
            Phase::RolledBack => Self::misused(operation),
        }
    }
}

} // verus!
