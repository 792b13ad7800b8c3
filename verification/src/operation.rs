//! Validated requests: the unit of work that each request stands for.

use crate::ident::Identifier;
use crate::statement::{Mode, Statement, StatementView, Step, StepView};
use vstd::prelude::*;

verus! {

/// How many filler notes a create without id inserts before the note that
/// was asked for.
pub const FILLER_NOTES: usize = 5000;

/// A request whose identifiers have been validated.
#[derive(Clone, Debug, PartialEq, Eq)]
pub enum Operation {
    /// List the active notes of a user.
    List { user_id: Identifier },
    /// Replace title and content of an existing note of a user.
    Replace { id: Identifier, user_id: Identifier, title: String, content: String },
    /// Reset the notes of a user and create one.
    Create { user_id: Identifier, title: String, content: String },
    /// Soft-delete a note of a user.
    Delete { id: Identifier, user_id: Identifier },
}

/// The mathematical value of an [`Operation`].
pub enum OperationView {
    List { user_id: Identifier },
    Replace { id: Identifier, user_id: Identifier, title: Seq<char>, content: Seq<char> },
    Create { user_id: Identifier, title: Seq<char>, content: Seq<char> },
    Delete { id: Identifier, user_id: Identifier },
}

impl View for Operation {
    type V = OperationView;

    open spec fn view(&self) -> OperationView {
        match self {
            Operation::List { user_id } => OperationView::List { user_id: *user_id },
            Operation::Replace { id, user_id, title, content } => OperationView::Replace {
                id: *id,
                user_id: *user_id,
                title: title@,
                content: content@,
            },
            Operation::Create { user_id, title, content } => OperationView::Create {
                user_id: *user_id,
                title: title@,
                content: content@,
            },
            Operation::Delete { id, user_id } => OperationView::Delete {
                id: *id,
                user_id: *user_id,
            },
        }
    }
}

impl OperationView {
    /// Whether the steps run inside a transaction that is committed after
    /// the last of them. Listing is a single read and runs without one.
    pub open spec fn transactional(self) -> bool {
        !(self is List)
    }

    /// The number of steps.
    pub open spec fn len(self) -> nat {
        match self {
            OperationView::Create { .. } => (FILLER_NOTES + 2) as nat,
            _ => 1,
        }
    }

    /// The step at position `i`.
    ///
    /// Listing, replacing and deleting are one statement each. Creating
    /// first removes every note of the user, then inserts the filler notes,
    /// all with the title and content of the request, and last inserts the
    /// note itself, whose row is the one wanted back.
    pub open spec fn step(self, i: int) -> StepView {
        match self {
            OperationView::List { user_id } => StepView {
                statement: StatementView::SelectActive { user_id },
                mode: Mode::Query,
            },
            OperationView::Replace { id, user_id, title, content } => StepView {
                statement: StatementView::Update { title, content, id, user_id },
                mode: Mode::QueryOne,
            },
            OperationView::Create { user_id, title, content } => if i == 0 {
                StepView { statement: StatementView::DeleteAll { user_id }, mode: Mode::Execute }
            } else if i <= FILLER_NOTES {
                StepView {
                    statement: StatementView::Insert { title, content, user_id },
                    mode: Mode::Execute,
                }
            } else {
                StepView {
                    statement: StatementView::Insert { title, content, user_id },
                    mode: Mode::QueryOne,
                }
            },
            OperationView::Delete { id, user_id } => StepView {
                statement: StatementView::MarkDeleted { id, user_id },
                mode: Mode::QueryOne,
            },
        }
    }

    /// All steps, in the order in which they run.
    pub open spec fn steps(self) -> Seq<StepView> {
        Seq::new(self.len(), |i: int| self.step(i))
    }
}

impl Operation {
    /// Whether the steps run inside a transaction.
    pub fn transactional(&self) -> (yes: bool)
        ensures
            yes == self@.transactional(),
    {
        match self {
            Operation::List { .. } => false,
            _ => true,
        }
    }

    /// The number of steps.
    pub fn len(&self) -> (n: usize)
        ensures
            n == self@.len(),
            n >= 1,
    {
        match self {
            Operation::Create { .. } => FILLER_NOTES + 2,
            _ => 1,
        }
    }

    /// The step at position `i`.
    pub fn step(&self, i: usize) -> (step: Step)
        requires
            i < self@.len(),
        ensures
            step@ == self@.step(i as int),
    {
        match self {
            Operation::List { user_id } => Step {
                statement: Statement::SelectActive { user_id: *user_id },
                mode: Mode::Query,
            },
            Operation::Replace { id, user_id, title, content } => Step {
                statement: Statement::Update {
                    title: title.clone(),
                    content: content.clone(),
                    id: *id,
                    user_id: *user_id,
                },
                mode: Mode::QueryOne,
            },
            Operation::Create { user_id, title, content } => {
                if i == 0 {
                    Step {
                        statement: Statement::DeleteAll { user_id: *user_id },
                        mode: Mode::Execute,
                    }
                } else {
                    let statement = Statement::Insert {
                        title: title.clone(),
                        content: content.clone(),
                        user_id: *user_id,
                    };
                    if i <= FILLER_NOTES {
                        Step { statement, mode: Mode::Execute }
                    } else {
                        Step { statement, mode: Mode::QueryOne }
                    }
                }
            },
            Operation::Delete { id, user_id } => Step {
                statement: Statement::MarkDeleted { id: *id, user_id: *user_id },
                mode: Mode::QueryOne,
            },
        }
    }
}

} // verus!
