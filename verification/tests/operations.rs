use service_notes::ident::Identifier;
use service_notes::operation::{Operation, FILLER_NOTES};
use service_notes::statement::{Mode, Param, Statement, Step};

const USER: Identifier = Identifier { value: 7 };
const NOTE: Identifier = Identifier { value: 9 };

fn create() -> Operation {
    Operation::Create { user_id: USER, title: "t".to_string(), content: "c".to_string() }
}

fn insert() -> Statement {
    Statement::Insert { title: "t".to_string(), content: "c".to_string(), user_id: USER }
}

#[test]
fn filler_batch_has_its_fixed_size() {
    assert_eq!(FILLER_NOTES, 5000);
}

#[test]
fn listing_is_one_query_outside_a_transaction() {
    let operation = Operation::List { user_id: USER };
    assert_eq!(operation.len(), 1);
    assert!(!operation.transactional());
    assert_eq!(
        operation.step(0),
        Step { statement: Statement::SelectActive { user_id: USER }, mode: Mode::Query }
    );
}

#[test]
fn replace_is_one_update_in_a_transaction() {
    let operation = Operation::Replace {
        id: NOTE,
        user_id: USER,
        title: "t".to_string(),
        content: "c".to_string(),
    };
    assert_eq!(operation.len(), 1);
    assert!(operation.transactional());
    assert_eq!(
        operation.step(0),
        Step {
            statement: Statement::Update {
                title: "t".to_string(),
                content: "c".to_string(),
                id: NOTE,
                user_id: USER,
            },
            mode: Mode::QueryOne,
        }
    );
}

#[test]
fn delete_is_one_stamp_in_a_transaction() {
    let operation = Operation::Delete { id: NOTE, user_id: USER };
    assert_eq!(operation.len(), 1);
    assert!(operation.transactional());
    assert_eq!(
        operation.step(0),
        Step { statement: Statement::MarkDeleted { id: NOTE, user_id: USER }, mode: Mode::QueryOne }
    );
}

#[test]
fn create_removes_then_fills_then_inserts() {
    let operation = create();
    assert!(operation.transactional());
    assert_eq!(operation.len(), 5002);
    assert_eq!(
        operation.step(0),
        Step { statement: Statement::DeleteAll { user_id: USER }, mode: Mode::Execute }
    );
    for i in [1usize, 2, 2500, 4999, 5000] {
        assert_eq!(operation.step(i), Step { statement: insert(), mode: Mode::Execute });
    }
    assert_eq!(operation.step(5001), Step { statement: insert(), mode: Mode::QueryOne });
}

#[test]
fn statements_have_their_sql() {
    assert_eq!(
        Statement::SelectActive { user_id: USER }.sql(),
        "SELECT * FROM notes WHERE user_id = $1 and deleted is null order by created desc"
    );
    assert_eq!(
        Statement::Update { title: String::new(), content: String::new(), id: NOTE, user_id: USER }
            .sql(),
        "update notes set title = $1, content = $2 where id = $3 and user_id = $4 returning *"
    );
    assert_eq!(Statement::DeleteAll { user_id: USER }.sql(), "delete from notes where user_id = $1");
    assert_eq!(
        insert().sql(),
        "insert into notes (title, content, user_id) values ($1, $2, $3) returning *"
    );
    assert_eq!(
        Statement::MarkDeleted { id: NOTE, user_id: USER }.sql(),
        "UPDATE notes SET deleted = NOW() WHERE id = $1 AND user_id = $2 RETURNING *"
    );
}

#[test]
fn statements_bind_their_parameters_in_order() {
    assert_eq!(Statement::SelectActive { user_id: USER }.params(), vec![Param::Id(USER)]);
    assert_eq!(
        Statement::Update {
            title: "t".to_string(),
            content: "c".to_string(),
            id: NOTE,
            user_id: USER
        }
        .params(),
        vec![
            Param::Text("t".to_string()),
            Param::Text("c".to_string()),
            Param::Id(NOTE),
            Param::Id(USER)
        ]
    );
    assert_eq!(Statement::DeleteAll { user_id: USER }.params(), vec![Param::Id(USER)]);
    assert_eq!(
        insert().params(),
        vec![Param::Text("t".to_string()), Param::Text("c".to_string()), Param::Id(USER)]
    );
    assert_eq!(
        Statement::MarkDeleted { id: NOTE, user_id: USER }.params(),
        vec![Param::Id(NOTE), Param::Id(USER)]
    );
}
