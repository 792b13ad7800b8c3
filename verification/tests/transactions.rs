use service_notes::ident::Identifier;
use service_notes::note::Note;
use service_notes::operation::Operation;
use service_notes::row::{Field, RawRow};
use service_notes::statement::{Mode, Statement, Step};
use service_notes::status::{Code, Status, StorageError};
use service_notes::transaction::{Action, Event, Phase, Transaction};

const USER: Identifier = Identifier { value: 7 };
const NOTE: Identifier = Identifier { value: 9 };

fn row(id: u128) -> RawRow {
    RawRow {
        id: Field::Value(id),
        user_id: Field::Value(USER.value),
        created: Field::Value(0),
        updated: Field::Value(1_000_000_000),
        deleted: Field::Null,
        title: Field::Value("t".to_string()),
        content: Field::Value("c".to_string()),
    }
}

fn note(id: &str) -> Note {
    Note {
        id: id.to_string(),
        user_id: "00000000-0000-0000-0000-000000000007".to_string(),
        title: "t".to_string(),
        content: "c".to_string(),
        created: "1970-01-01 0:00:00.0 +00:00:00".to_string(),
        updated: "1970-01-01 0:00:01.0 +00:00:00".to_string(),
        deleted: None,
    }
}

fn delete() -> Operation {
    Operation::Delete { id: NOTE, user_id: USER }
}

fn create() -> Operation {
    Operation::Create { user_id: USER, title: "t".to_string(), content: "c".to_string() }
}

fn fail(code: Code, message: &str) -> Action {
    Action::Fail { status: Status { code, message: message.to_string() } }
}

/// Runs a transactional work up to its first statement.
fn opened(operation: Operation) -> (Transaction, Action) {
    let (tx, action) = Transaction::new(operation).step(Event::Start);
    assert_eq!(action, Action::Acquire);
    assert_eq!(*tx.phase(), Phase::Acquiring);
    let (tx, action) = tx.step(Event::Acquired);
    assert_eq!(action, Action::Begin);
    assert_eq!(*tx.phase(), Phase::Beginning);
    tx.step(Event::Begun)
}

#[test]
fn new_work_is_idle() {
    let tx = Transaction::new(delete());
    assert_eq!(*tx.phase(), Phase::Idle);
    assert_eq!(*tx.operation(), delete());
}

#[test]
fn delete_runs_from_acquire_to_reply() {
    let (tx, action) = opened(delete());
    assert_eq!(
        action,
        Action::Run {
            step: Step {
                statement: Statement::MarkDeleted { id: NOTE, user_id: USER },
                mode: Mode::QueryOne
            }
        }
    );
    assert_eq!(*tx.phase(), Phase::Open { at: 0 });
    let (tx, action) = tx.step(Event::Completed { rows: vec![row(9)] });
    assert_eq!(action, Action::Commit);
    let expected = note("00000000-0000-0000-0000-000000000009");
    assert_eq!(*tx.phase(), Phase::Committing { note: expected.clone() });
    let (tx, action) = tx.step(Event::Committed);
    assert_eq!(action, Action::Reply { note: expected });
    assert_eq!(*tx.phase(), Phase::Committed);
}

#[test]
fn listing_runs_without_a_transaction() {
    let operation = Operation::List { user_id: USER };
    let (tx, action) = Transaction::new(operation).step(Event::Start);
    assert_eq!(action, Action::Acquire);
    let (tx, action) = tx.step(Event::Acquired);
    assert_eq!(
        action,
        Action::Run {
            step: Step { statement: Statement::SelectActive { user_id: USER }, mode: Mode::Query }
        }
    );
    let rows = vec![row(3), row(2), row(1)];
    let (tx, action) = tx.step(Event::Completed { rows: rows.clone() });
    assert_eq!(action, Action::Stream { rows });
    assert_eq!(*tx.phase(), Phase::Committed);
}

#[test]
fn listing_of_no_rows_streams_nothing() {
    let operation = Operation::List { user_id: USER };
    let (tx, _) = Transaction::new(operation).step(Event::Start);
    let (tx, _) = tx.step(Event::Acquired);
    let (_, action) = tx.step(Event::Completed { rows: vec![] });
    assert_eq!(action, Action::Stream { rows: vec![] });
}

#[test]
fn create_sends_every_step_in_order_and_commits_last() {
    let operation = create();
    let (mut tx, mut action) = opened(create());
    let mut sent = 0usize;
    loop {
        match action {
            Action::Run { step } => {
                assert_eq!(step, operation.step(sent));
                assert_eq!(*tx.phase(), Phase::Open { at: sent });
                sent += 1;
                let rows = if step.mode == Mode::Execute { vec![] } else { vec![row(5000)] };
                let next = tx.step(Event::Completed { rows });
                tx = next.0;
                action = next.1;
            }
            other => {
                assert_eq!(other, Action::Commit);
                break;
            }
        }
    }
    assert_eq!(sent, 5002);
    let (tx, action) = tx.step(Event::Committed);
    assert_eq!(action, Action::Reply { note: note("00000000-0000-0000-0000-000000001388") });
    assert_eq!(*tx.phase(), Phase::Committed);
}

#[test]
fn rows_of_steps_before_the_last_are_dropped() {
    let (tx, _) = opened(create());
    let (tx, action) = tx.step(Event::Completed { rows: vec![row(1), row(2)] });
    assert_eq!(action, Action::Run { step: create().step(1) });
    assert_eq!(*tx.phase(), Phase::Open { at: 1 });
}

#[test]
fn pool_failure_is_unavailable() {
    let (tx, _) = Transaction::new(delete()).step(Event::Start);
    let error = StorageError::Pool { detail: "pool exhausted".to_string() };
    let (tx, action) = tx.step(Event::Failed { error });
    assert_eq!(action, fail(Code::Unavailable, "pool exhausted"));
    assert_eq!(*tx.phase(), Phase::RolledBack);
}

#[test]
fn begin_failure_is_internal() {
    let (tx, _) = Transaction::new(delete()).step(Event::Start);
    let (tx, _) = tx.step(Event::Acquired);
    let error = StorageError::Transaction { detail: "cannot begin".to_string() };
    let (tx, action) = tx.step(Event::Failed { error });
    assert_eq!(action, fail(Code::Internal, "cannot begin"));
    assert_eq!(*tx.phase(), Phase::RolledBack);
}

#[test]
fn statement_failure_rolls_back_with_the_translated_error() {
    let (tx, _) = opened(create());
    let (tx, _) = tx.step(Event::Completed { rows: vec![] });
    let error = StorageError::Database { message: "value too long".to_string() };
    let (tx, action) = tx.step(Event::Failed { error });
    assert_eq!(action, fail(Code::Internal, "value too long"));
    assert_eq!(*tx.phase(), Phase::RolledBack);
}

#[test]
fn no_row_is_not_found() {
    let (tx, _) = opened(delete());
    let (tx, action) = tx.step(Event::Completed { rows: vec![] });
    assert_eq!(action, fail(Code::NotFound, "Note not found"));
    assert_eq!(*tx.phase(), Phase::RolledBack);
}

#[test]
fn more_than_one_row_is_internal() {
    let (tx, _) = opened(delete());
    let (tx, action) = tx.step(Event::Completed { rows: vec![row(9), row(9)] });
    assert_eq!(action, fail(Code::Internal, "Unknown error"));
    assert_eq!(*tx.phase(), Phase::RolledBack);
}

#[test]
fn row_without_a_column_is_not_found() {
    let (tx, _) = opened(delete());
    let mut broken = row(9);
    broken.title = Field::Missing;
    let (tx, action) = tx.step(Event::Completed { rows: vec![broken] });
    assert_eq!(action, fail(Code::NotFound, "Note not found"));
    assert_eq!(*tx.phase(), Phase::RolledBack);
}

#[test]
fn row_of_another_shape_is_internal() {
    let (tx, _) = opened(delete());
    let mut broken = row(9);
    broken.created = Field::WrongType;
    let (tx, action) = tx.step(Event::Completed { rows: vec![broken] });
    assert_eq!(action, fail(Code::Internal, "Unknown error"));
    assert_eq!(*tx.phase(), Phase::RolledBack);
}

#[test]
fn commit_failure_is_internal_and_nothing_is_returned() {
    let (tx, _) = opened(delete());
    let (tx, action) = tx.step(Event::Completed { rows: vec![row(9)] });
    assert_eq!(action, Action::Commit);
    let error = StorageError::Transaction { detail: "cannot commit".to_string() };
    let (tx, action) = tx.step(Event::Failed { error });
    assert_eq!(action, fail(Code::Internal, "cannot commit"));
    assert_eq!(*tx.phase(), Phase::RolledBack);
}

#[test]
fn unexpected_event_gives_the_work_up() {
    let (tx, action) = Transaction::new(delete()).step(Event::Acquired);
    assert_eq!(action, fail(Code::Internal, "Unknown error"));
    assert_eq!(*tx.phase(), Phase::RolledBack);
    let (tx, _) = Transaction::new(delete()).step(Event::Start);
    let (tx, action) = tx.step(Event::Committed);
    assert_eq!(action, fail(Code::Internal, "Unknown error"));
    assert_eq!(*tx.phase(), Phase::RolledBack);
    let (tx, _) = opened(delete());
    let (tx, action) = tx.step(Event::Begun);
    assert_eq!(action, fail(Code::Internal, "Unknown error"));
    assert_eq!(*tx.phase(), Phase::RolledBack);
    let (tx, action) = tx.step(Event::Start);
    assert_eq!(action, fail(Code::Internal, "Unknown error"));
    assert_eq!(*tx.phase(), Phase::RolledBack);
}

#[test]
fn committed_work_stays_committed() {
    let (tx, _) = opened(delete());
    let (tx, _) = tx.step(Event::Completed { rows: vec![row(9)] });
    let (tx, _) = tx.step(Event::Committed);
    let error = StorageError::Database { message: "late".to_string() };
    let (tx, action) = tx.step(Event::Failed { error });
    assert_eq!(action, fail(Code::Internal, "Unknown error"));
    assert_eq!(*tx.phase(), Phase::Committed);
    let (tx, action) = tx.step(Event::Start);
    assert_eq!(action, fail(Code::Internal, "Unknown error"));
    assert_eq!(*tx.phase(), Phase::Committed);
}
