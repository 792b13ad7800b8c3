use service_notes::ident::Identifier;
use service_notes::note::{Note, NoteId, UserId};
use service_notes::operation::Operation;
use service_notes::service::{create_note, delete_note, get_notes};
use service_notes::status::{Code, Status};

const USER: &str = "aaaaaaaa-bbbb-cccc-dddd-eeeeeeeeeeee";
const USER_VALUE: u128 = 0xaaaaaaaa_bbbb_cccc_dddd_eeeeeeeeeeee;
const NOTE: &str = "11111111-2222-3333-4444-555555555555";
const NOTE_VALUE: u128 = 0x11111111_2222_3333_4444_555555555555;

fn request(id: &str, user_id: &str) -> Note {
    Note {
        id: id.to_string(),
        user_id: user_id.to_string(),
        title: "groceries".to_string(),
        content: "milk, eggs".to_string(),
        created: String::new(),
        updated: String::new(),
        deleted: None,
    }
}

fn invalid(detail: &str) -> Status {
    Status { code: Code::InvalidArgument, message: detail.to_string() }
}

#[test]
fn listing_asks_for_the_notes_of_the_user() {
    let operation = get_notes(&UserId { user_id: USER.to_string() });
    assert_eq!(operation, Ok(Operation::List { user_id: Identifier { value: USER_VALUE } }));
}

#[test]
fn listing_with_a_malformed_user_is_an_invalid_argument() {
    let outcome = get_notes(&UserId { user_id: "nobody".to_string() });
    assert_eq!(outcome, Err(invalid("invalid character: found `n` at 0")));
    let outcome = get_notes(&UserId { user_id: String::new() });
    assert_eq!(outcome, Err(invalid("invalid length: found 0")));
}

#[test]
fn create_without_id_resets_and_creates() {
    let operation = create_note(&request("", USER));
    assert_eq!(
        operation,
        Ok(Operation::Create {
            user_id: Identifier { value: USER_VALUE },
            title: "groceries".to_string(),
            content: "milk, eggs".to_string(),
        })
    );
}

#[test]
fn create_with_id_replaces() {
    let operation = create_note(&request(NOTE, USER));
    assert_eq!(
        operation,
        Ok(Operation::Replace {
            id: Identifier { value: NOTE_VALUE },
            user_id: Identifier { value: USER_VALUE },
            title: "groceries".to_string(),
            content: "milk, eggs".to_string(),
        })
    );
}

#[test]
fn create_validates_the_user_before_the_id() {
    assert_eq!(create_note(&request("", "abc")), Err(invalid("invalid length: found 3")));
    assert_eq!(create_note(&request(NOTE, "")), Err(invalid("invalid length: found 0")));
    assert_eq!(create_note(&request("abcd", "abc")), Err(invalid("invalid length: found 3")));
    assert_eq!(create_note(&request("abcd", USER)), Err(invalid("invalid length: found 4")));
}

#[test]
fn delete_asks_for_the_note_of_the_user() {
    let operation =
        delete_note(&NoteId { note_id: NOTE.to_string(), user_id: USER.to_string() });
    assert_eq!(
        operation,
        Ok(Operation::Delete {
            id: Identifier { value: NOTE_VALUE },
            user_id: Identifier { value: USER_VALUE },
        })
    );
}

#[test]
fn delete_validates_the_note_before_the_user() {
    let both = NoteId { note_id: "abcd".to_string(), user_id: "abc".to_string() };
    assert_eq!(delete_note(&both), Err(invalid("invalid length: found 4")));
    let user = NoteId { note_id: NOTE.to_string(), user_id: "abc".to_string() };
    assert_eq!(delete_note(&user), Err(invalid("invalid length: found 3")));
    let note = NoteId { note_id: String::new(), user_id: USER.to_string() };
    assert_eq!(delete_note(&note), Err(invalid("invalid length: found 0")));
}
