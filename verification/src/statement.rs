//! The parameterized statements that the service sends to storage.

use crate::ident::Identifier;
use vstd::prelude::*;

verus! {

/// A statement on the `notes` table, with the values bound to it.
#[derive(Clone, Debug, PartialEq, Eq)]
pub enum Statement {
    /// All notes of a user that are not soft-deleted, most recently created
    /// first.
    SelectActive { user_id: Identifier },
    /// Replaces title and content of the note with this id and owner, and
    /// returns the row.
    Update { title: String, content: String, id: Identifier, user_id: Identifier },
    /// Removes every note of a user, soft-deleted or not.
    DeleteAll { user_id: Identifier },
    /// Inserts a note for a user, and returns the row with the id and the
    /// instants that storage assigned.
    Insert { title: String, content: String, user_id: Identifier },
    /// Stamps the note with this id and owner as deleted now, and returns
    /// the row.
    MarkDeleted { id: Identifier, user_id: Identifier },
}

/// The mathematical value of a [`Statement`].
pub enum StatementView {
    SelectActive { user_id: Identifier },
    Update { title: Seq<char>, content: Seq<char>, id: Identifier, user_id: Identifier },
    DeleteAll { user_id: Identifier },
    Insert { title: Seq<char>, content: Seq<char>, user_id: Identifier },
    MarkDeleted { id: Identifier, user_id: Identifier },
}

impl View for Statement {
    type V = StatementView;

    open spec fn view(&self) -> StatementView {
        match self {
            Statement::SelectActive { user_id } => StatementView::SelectActive {
                user_id: *user_id,
            },
            Statement::Update { title, content, id, user_id } => StatementView::Update {
                title: title@,
                content: content@,
                id: *id,
                user_id: *user_id,
            },
            Statement::DeleteAll { user_id } => StatementView::DeleteAll { user_id: *user_id },
            Statement::Insert { title, content, user_id } => StatementView::Insert {
                title: title@,
                content: content@,
                user_id: *user_id,
            },
            Statement::MarkDeleted { id, user_id } => StatementView::MarkDeleted {
                id: *id,
                user_id: *user_id,
            },
        }
    }
}

/// A value bound to a placeholder of a statement.
#[derive(Clone, Debug, PartialEq, Eq)]
pub enum Param {
    Text(String),
    Id(Identifier),
}

/// The mathematical value of a [`Param`].
pub enum ParamView {
    Text(Seq<char>),
    Id(Identifier),
}

impl View for Param {
    type V = ParamView;

    open spec fn view(&self) -> ParamView {
        match self {
            Param::Text(text) => ParamView::Text(text@),
            Param::Id(id) => ParamView::Id(*id),
        }
    }
}

/// The views of a sequence of parameters, in order.
pub open spec fn param_views(params: Seq<Param>) -> Seq<ParamView> {
    params.map_values(|p: Param| p@)
}

impl StatementView {
    /// The SQL text of the statement, with `$1`, `$2`, ... for its
    /// parameters.
    pub open spec fn sql(self) -> Seq<char> {
        match self {
            StatementView::SelectActive { .. } =>
                "SELECT * FROM notes WHERE user_id = $1 and deleted is null order by created desc"@,
            StatementView::Update { .. } =>
                "update notes set title = $1, content = $2 where id = $3 and user_id = $4 returning *"@,
            StatementView::DeleteAll { .. } => "delete from notes where user_id = $1"@,
            StatementView::Insert { .. } =>
                "insert into notes (title, content, user_id) values ($1, $2, $3) returning *"@,
            StatementView::MarkDeleted { .. } =>
                "UPDATE notes SET deleted = NOW() WHERE id = $1 AND user_id = $2 RETURNING *"@,
        }
    }

    /// The values bound to `$1`, `$2`, ..., in that order.
    pub open spec fn params(self) -> Seq<ParamView> {
        match self {
            StatementView::SelectActive { user_id } => seq![ParamView::Id(user_id)],
            StatementView::Update { title, content, id, user_id } => seq![
                ParamView::Text(title),
                ParamView::Text(content),
                ParamView::Id(id),
                ParamView::Id(user_id),
            ],
            StatementView::DeleteAll { user_id } => seq![ParamView::Id(user_id)],
            StatementView::Insert { title, content, user_id } => seq![
                ParamView::Text(title),
                ParamView::Text(content),
                ParamView::Id(user_id),
            ],
            StatementView::MarkDeleted { id, user_id } => seq![
                ParamView::Id(id),
                ParamView::Id(user_id),
            ],
        }
    }
}

impl Statement {
    /// The SQL text of the statement.
    pub fn sql(&self) -> (text: &'static str)
        ensures
            text@ == self@.sql(),
    {
        match self {
            Statement::SelectActive { .. } =>
                "SELECT * FROM notes WHERE user_id = $1 and deleted is null order by created desc",
            Statement::Update { .. } =>
                "update notes set title = $1, content = $2 where id = $3 and user_id = $4 returning *",
            Statement::DeleteAll { .. } => "delete from notes where user_id = $1",
            Statement::Insert { .. } =>
                "insert into notes (title, content, user_id) values ($1, $2, $3) returning *",
            Statement::MarkDeleted { .. } =>
                "UPDATE notes SET deleted = NOW() WHERE id = $1 AND user_id = $2 RETURNING *",
        }
    }

    /// The values to bind to the statement's placeholders, in order.
    pub fn params(&self) -> (params: Vec<Param>)
        ensures
            param_views(params@) == self@.params(),
    {
        let mut params: Vec<Param> = Vec::new();
        match self {
            Statement::SelectActive { user_id } => {
                params.push(Param::Id(*user_id));
            },
            Statement::Update { title, content, id, user_id } => {
                params.push(Param::Text(title.clone()));
                params.push(Param::Text(content.clone()));
                params.push(Param::Id(*id));
                params.push(Param::Id(*user_id));
            },
            Statement::DeleteAll { user_id } => {
                params.push(Param::Id(*user_id));
            },
            Statement::Insert { title, content, user_id } => {
                params.push(Param::Text(title.clone()));
                params.push(Param::Text(content.clone()));
                params.push(Param::Id(*user_id));
            },
            Statement::MarkDeleted { id, user_id } => {
                params.push(Param::Id(*id));
                params.push(Param::Id(*user_id));
            },
        }
        assert(param_views(params@) =~= self@.params());
        params
    }
}

/// What the caller of a statement wants back from it.
#[derive(Clone, Copy, Debug, PartialEq, Eq, Structural)]
pub enum Mode {
    /// Nothing: rows that the statement returns are dropped.
    Execute,
    /// The one row that the statement returns.
    QueryOne,
    /// Every row that the statement returns.
    Query,
}

/// One step of a unit of work: a statement and what is wanted back.
#[derive(Clone, Debug, PartialEq, Eq)]
pub struct Step {
    pub statement: Statement,
    pub mode: Mode,
}

/// The mathematical value of a [`Step`].
pub struct StepView {
    pub statement: StatementView,
    pub mode: Mode,
}

impl View for Step {
    type V = StepView;

    open spec fn view(&self) -> StepView {
        StepView { statement: self.statement@, mode: self.mode }
    }
}

} // verus!
