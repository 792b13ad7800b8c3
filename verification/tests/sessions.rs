use service_notes::ident::Identifier;
use service_notes::note::{Note, NoteId, UserId};
use service_notes::operation::{Operation, FILLER_NOTES};
use service_notes::session::Reply;
use service_notes::statement::Statement;
use service_notes::status::{Code, Status};
use service_notes::store::Store;
use service_notes::timestamp::Timestamp;

const ALICE: &str = "00000000-0000-0000-0000-0000000a11ce";
const BOB: &str = "00000000-0000-0000-0000-000000000b0b";
const ALICE_ID: Identifier = Identifier { value: 0xa11ce };
const BOB_ID: Identifier = Identifier { value: 0xb0b };

fn at(seconds: i128) -> Timestamp {
    Timestamp { nanos: seconds * 1_000_000_000 }
}

fn text(value: u128) -> String {
    Identifier { value }.to_text()
}

fn request(id: &str, user_id: &str, title: &str, content: &str) -> Note {
    Note {
        id: id.to_string(),
        user_id: user_id.to_string(),
        title: title.to_string(),
        content: content.to_string(),
        created: String::new(),
        updated: String::new(),
        deleted: None,
    }
}

fn user(user_id: &str) -> UserId {
    UserId { user_id: user_id.to_string() }
}

fn insert(store: &mut Store, user_id: Identifier, title: &str, now: Timestamp) {
    let statement =
        Statement::Insert { title: title.to_string(), content: "c".to_string(), user_id };
    store.execute(&statement, now).unwrap();
}

fn not_found() -> Status {
    Status { code: Code::NotFound, message: "Note not found".to_string() }
}

fn count_of(store: &Store, user_id: Identifier) -> usize {
    (0..store.len()).filter(|&i| store.get(i).user_id == user_id).count()
}

#[test]
fn listing_shows_only_active_notes_of_the_user_newest_first() {
    let mut store = Store::new();
    insert(&mut store, ALICE_ID, "a-old", at(10));
    insert(&mut store, BOB_ID, "b", at(20));
    insert(&mut store, ALICE_ID, "a-new", at(30));
    insert(&mut store, ALICE_ID, "a-gone", at(40));
    insert(&mut store, ALICE_ID, "a-mid", at(25));
    let gone = NoteId { note_id: text(3), user_id: ALICE.to_string() };
    store.delete_note(&gone, at(50)).unwrap();
    let notes = store.list_notes(&user(ALICE)).unwrap();
    let titles: Vec<&str> = notes.iter().map(|n| n.title.as_str()).collect();
    assert_eq!(titles, vec!["a-new", "a-mid", "a-old"]);
    for note in &notes {
        assert_eq!(note.user_id, ALICE);
        assert_eq!(note.deleted, None);
    }
    assert_eq!(notes[0].created, "1970-01-01 0:00:30.0 +00:00:00");
    assert_eq!(notes[1].created, "1970-01-01 0:00:25.0 +00:00:00");
    assert_eq!(notes[2].created, "1970-01-01 0:00:10.0 +00:00:00");
    assert_eq!(notes[0].id, text(2));
}

#[test]
fn listing_for_an_unknown_user_is_empty() {
    let mut store = Store::new();
    insert(&mut store, ALICE_ID, "a", at(10));
    assert_eq!(store.list_notes(&user(BOB)), Ok(vec![]));
}

#[test]
fn listing_ends_silently_at_a_note_that_cannot_be_shown() {
    let mut store = Store::new();
    insert(&mut store, ALICE_ID, "fine", at(10));
    insert(&mut store, ALICE_ID, "broken", Timestamp { nanos: i128::MAX - 1 });
    insert(&mut store, ALICE_ID, "newest", Timestamp { nanos: i128::MAX });
    insert(&mut store, ALICE_ID, "older", at(5));
    // Most recent first, the two notes without text form come first.
    assert_eq!(store.list_notes(&user(ALICE)), Ok(vec![]));
    let mut store = Store::new();
    insert(&mut store, ALICE_ID, "fine", at(10));
    insert(&mut store, ALICE_ID, "broken", Timestamp { nanos: i128::MIN });
    insert(&mut store, ALICE_ID, "older", at(5));
    let notes = store.list_notes(&user(ALICE)).unwrap();
    let titles: Vec<&str> = notes.iter().map(|n| n.title.as_str()).collect();
    assert_eq!(titles, vec!["fine", "older"]);
}

#[test]
fn malformed_identifiers_are_invalid_arguments_and_touch_nothing() {
    let mut store = Store::new();
    insert(&mut store, ALICE_ID, "a", at(10));
    let invalid = |detail: &str| Status { code: Code::InvalidArgument, message: detail.to_string() };
    assert_eq!(store.list_notes(&user("a11ce")), Err(invalid("invalid length: found 5")));
    assert_eq!(
        store.create_or_replace_note(&request("", "alice", "t", "c"), at(20)),
        Err(invalid("invalid character: found `l` at 1"))
    );
    assert_eq!(
        store.create_or_replace_note(&request("nope", ALICE, "t", "c"), at(20)),
        Err(invalid("invalid character: found `n` at 0"))
    );
    assert_eq!(
        store.delete_note(&NoteId { note_id: "0".to_string(), user_id: ALICE.to_string() }, at(20)),
        Err(invalid("invalid length: found 1"))
    );
    assert_eq!(
        store.delete_note(&NoteId { note_id: text(0), user_id: "?".to_string() }, at(20)),
        Err(invalid("invalid character: found `?` at 0"))
    );
    assert_eq!(store.len(), 1);
    assert_eq!(store.get(0).title, "a");
    assert_eq!(store.get(0).deleted, None);
    assert_eq!(store.get(0).updated, at(10));
}

#[test]
fn create_returns_a_note_with_a_fresh_id() {
    let mut store = Store::new();
    insert(&mut store, ALICE_ID, "a1", at(1));
    insert(&mut store, BOB_ID, "b1", at(2));
    insert(&mut store, ALICE_ID, "a2", at(3));
    let before: Vec<String> = (0..store.len()).map(|i| store.get(i).id.to_text()).collect();
    let made = store.create_or_replace_note(&request("", ALICE, "t", "c"), at(10)).unwrap();
    assert!(!before.contains(&made.id));
    assert_eq!(made.id, text(3 + FILLER_NOTES as u128));
    let again = store.create_or_replace_note(&request("", ALICE, "t", "c"), at(11)).unwrap();
    assert_ne!(again.id, made.id);
    assert_eq!(again.id, text(3 + 2 * FILLER_NOTES as u128 + 1));
}

#[test]
fn create_resets_the_notes_of_the_user() {
    let mut store = Store::new();
    insert(&mut store, ALICE_ID, "a1", at(1));
    insert(&mut store, BOB_ID, "b1", at(2));
    insert(&mut store, ALICE_ID, "a2", at(3));
    insert(&mut store, ALICE_ID, "a3", at(4));
    let gone = NoteId { note_id: text(3), user_id: ALICE.to_string() };
    store.delete_note(&gone, at(5)).unwrap();
    let made = store
        .create_or_replace_note(&request("", ALICE, "shopping", "bread"), at(10))
        .unwrap();
    assert_eq!(
        made,
        Note {
            id: text(4 + FILLER_NOTES as u128),
            user_id: ALICE.to_string(),
            title: "shopping".to_string(),
            content: "bread".to_string(),
            created: "1970-01-01 0:00:10.0 +00:00:00".to_string(),
            updated: "1970-01-01 0:00:10.0 +00:00:00".to_string(),
            deleted: None,
        }
    );
    assert_eq!(store.len(), 1 + FILLER_NOTES + 1);
    assert_eq!(count_of(&store, ALICE_ID), FILLER_NOTES + 1);
    assert_eq!(count_of(&store, BOB_ID), 1);
    assert_eq!(store.get(0).title, "b1");
    let mut with_id = 0;
    for i in 1..store.len() {
        let note = store.get(i);
        assert_eq!(note.user_id, ALICE_ID);
        assert_eq!(note.title, "shopping");
        assert_eq!(note.content, "bread");
        assert_eq!(note.created, at(10));
        assert_eq!(note.deleted, None);
        assert!(note.id.value >= 4);
        if note.id.to_text() == made.id {
            with_id += 1;
            assert_eq!(i, store.len() - 1);
        }
    }
    assert_eq!(with_id, 1);
}

#[test]
fn create_for_a_user_without_notes_makes_the_batch() {
    let mut store = Store::new();
    let made = store.create_or_replace_note(&request("", BOB, "t", "c"), at(1)).unwrap();
    assert_eq!(made.id, text(FILLER_NOTES as u128));
    assert_eq!(store.len(), FILLER_NOTES + 1);
}

#[test]
fn created_note_is_listed_again_as_it_was_returned() {
    let mut store = Store::new();
    insert(&mut store, BOB_ID, "b1", at(2));
    let made = store
        .create_or_replace_note(&request("", ALICE, "shopping", "bread"), at(10))
        .unwrap();
    assert_eq!(made.title, "shopping");
    assert_eq!(made.content, "bread");
    assert_eq!(made.deleted, None);
    let notes = store.list_notes(&user(ALICE)).unwrap();
    assert_eq!(notes.len(), FILLER_NOTES + 1);
    let found: Vec<&Note> = notes.iter().filter(|n| n.id == made.id).collect();
    assert_eq!(found, vec![&made]);
}

#[test]
fn replace_of_a_note_of_another_user_is_not_found() {
    let mut store = Store::new();
    insert(&mut store, BOB_ID, "b1", at(2));
    let outcome = store.create_or_replace_note(&request(&text(0), ALICE, "mine", "now"), at(3));
    assert_eq!(outcome, Err(not_found()));
    assert_eq!(store.len(), 1);
    assert_eq!(store.get(0).title, "b1");
    assert_eq!(store.get(0).updated, at(2));
}

#[test]
fn replace_of_a_missing_note_is_not_found() {
    let mut store = Store::new();
    let outcome = store.create_or_replace_note(&request(&text(5), ALICE, "t", "c"), at(3));
    assert_eq!(outcome, Err(not_found()));
    assert_eq!(store.len(), 0);
}

#[test]
fn replace_rewrites_title_and_content_in_place() {
    let mut store = Store::new();
    insert(&mut store, ALICE_ID, "a1", at(1));
    insert(&mut store, ALICE_ID, "a2", at(2));
    let made = store
        .create_or_replace_note(&request(&text(0), ALICE, "renamed", "rewritten"), at(7))
        .unwrap();
    assert_eq!(
        made,
        Note {
            id: text(0),
            user_id: ALICE.to_string(),
            title: "renamed".to_string(),
            content: "rewritten".to_string(),
            created: "1970-01-01 0:00:01.0 +00:00:00".to_string(),
            updated: "1970-01-01 0:00:07.0 +00:00:00".to_string(),
            deleted: None,
        }
    );
    assert_eq!(store.len(), 2);
    assert_eq!(store.get(0).title, "renamed");
    assert_eq!(store.get(1).title, "a2");
    let notes = store.list_notes(&user(ALICE)).unwrap();
    let titles: Vec<&str> = notes.iter().map(|n| n.title.as_str()).collect();
    assert_eq!(titles, vec!["a2", "renamed"]);
}

#[test]
fn delete_stamps_the_note_and_hides_it_from_listing() {
    let mut store = Store::new();
    insert(&mut store, ALICE_ID, "a1", at(1));
    insert(&mut store, ALICE_ID, "a2", at(2));
    let target = NoteId { note_id: text(1), user_id: ALICE.to_string() };
    let gone = store.delete_note(&target, at(9)).unwrap();
    assert_eq!(gone.id, text(1));
    assert_eq!(gone.title, "a2");
    assert_eq!(gone.deleted, Some("1970-01-01 0:00:09.0 +00:00:00".to_string()));
    let notes = store.list_notes(&user(ALICE)).unwrap();
    assert_eq!(notes.len(), 1);
    assert!(notes.iter().all(|n| n.id != gone.id));
    assert_eq!(store.len(), 2);
}

#[test]
fn delete_of_a_missing_pair_is_not_found() {
    let mut store = Store::new();
    insert(&mut store, ALICE_ID, "a1", at(1));
    let missing = NoteId { note_id: text(9), user_id: ALICE.to_string() };
    assert_eq!(store.delete_note(&missing, at(2)), Err(not_found()));
    let foreign = NoteId { note_id: text(0), user_id: BOB.to_string() };
    assert_eq!(store.delete_note(&foreign, at(2)), Err(not_found()));
    assert_eq!(store.get(0).deleted, None);
}

#[test]
fn second_delete_stamps_again() {
    let mut store = Store::new();
    insert(&mut store, ALICE_ID, "a1", at(1));
    let target = NoteId { note_id: text(0), user_id: ALICE.to_string() };
    let first = store.delete_note(&target, at(5)).unwrap();
    let second = store.delete_note(&target, at(8)).unwrap();
    assert_eq!(first.deleted, Some("1970-01-01 0:00:05.0 +00:00:00".to_string()));
    assert_eq!(second.deleted, Some("1970-01-01 0:00:08.0 +00:00:00".to_string()));
    assert_eq!(second.id, first.id);
}

#[test]
fn failed_work_leaves_the_table_as_it_was() {
    let mut store = Store::new();
    insert(&mut store, ALICE_ID, "a1", at(1));
    insert(&mut store, BOB_ID, "b1", at(2));
    let never = Timestamp { nanos: i128::MAX };
    let internal = Status { code: Code::Internal, message: "Unknown error".to_string() };
    let outcome = store.create_or_replace_note(&request("", ALICE, "t", "c"), never);
    assert_eq!(outcome, Err(internal.clone()));
    assert_eq!(store.len(), 2);
    assert_eq!(store.get(0).title, "a1");
    let target = NoteId { note_id: text(0), user_id: ALICE.to_string() };
    assert_eq!(store.delete_note(&target, never), Err(internal.clone()));
    assert_eq!(store.get(0).deleted, None);
    let outcome = store.create_or_replace_note(&request(&text(0), ALICE, "t", "c"), never);
    assert_eq!(outcome, Err(internal));
    assert_eq!(store.get(0).title, "a1");
    // The identifiers that the failed create drew are not handed out again.
    let made = store.create_or_replace_note(&request("", ALICE, "t", "c"), at(3)).unwrap();
    assert_eq!(made.id, text(2 + FILLER_NOTES as u128));
}

#[test]
fn serve_answers_with_notes_for_a_listing_and_a_note_for_a_write() {
    let mut store = Store::new();
    insert(&mut store, ALICE_ID, "a1", at(1));
    let listed = store.serve(Operation::List { user_id: ALICE_ID }, at(2)).unwrap();
    match listed {
        Reply::Notes(notes) => assert_eq!(notes.len(), 1),
        Reply::Note(_) => panic!("a listing answers with notes"),
    }
    let deleted =
        store.serve(Operation::Delete { id: Identifier { value: 0 }, user_id: ALICE_ID }, at(3));
    match deleted {
        Ok(Reply::Note(note)) => assert!(note.deleted.is_some()),
        _ => panic!("a delete answers with the note"),
    }
    let missing =
        store.serve(Operation::Delete { id: Identifier { value: 1 }, user_id: ALICE_ID }, at(4));
    assert_eq!(missing, Err(not_found()));
}

#[test]
fn create_fails_as_a_whole_when_the_counter_gives_out() {
    let mut store = Store::with_counter(u128::MAX - FILLER_NOTES as u128);
    insert(&mut store, ALICE_ID, "kept", at(1));
    let outcome = store.create_or_replace_note(&request("", ALICE, "t", "c"), at(2));
    assert_eq!(
        outcome,
        Err(Status { code: Code::Internal, message: "identifiers exhausted".to_string() })
    );
    assert_eq!(store.len(), 1);
    assert_eq!(store.get(0).title, "kept");
}

#[test]
fn create_succeeds_when_the_counter_just_lasts() {
    let mut store = Store::with_counter(u128::MAX - FILLER_NOTES as u128 - 1);
    let made = store.create_or_replace_note(&request("", ALICE, "t", "c"), at(2)).unwrap();
    assert_eq!(made.id, text(u128::MAX - 1));
    assert_eq!(store.len(), FILLER_NOTES + 1);
    let outcome = store.create_or_replace_note(&request("", BOB, "t", "c"), at(3));
    assert_eq!(
        outcome,
        Err(Status { code: Code::Internal, message: "identifiers exhausted".to_string() })
    );
    assert_eq!(store.len(), FILLER_NOTES + 1);
}
