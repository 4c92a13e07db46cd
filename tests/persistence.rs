use jira::command::{handle_command, Command};
use jira::persistence::{load, restore, save, SnapshotError, StoreSnapshot, TicketRecord};
use jira::status::Status;
use jira::store::TicketStore;

fn record(id: u64, title: &str) -> TicketRecord {
    TicketRecord {
        id,
        title: title.to_string(),
        description: String::new(),
        status: Status::ToDo,
        comments: vec![],
    }
}

fn sample_store() -> TicketStore {
    let mut store = TicketStore::new();
    for (title, description) in [("One", "first"), ("Two", ""), ("Three", "third")] {
        handle_command(
            &mut store,
            Command::Create { title: title.to_string(), description: description.to_string() },
        )
        .unwrap();
    }
    handle_command(&mut store, Command::Delete { ticket_id: 2 }).unwrap();
    handle_command(&mut store, Command::Move { ticket_id: 3, status: Status::Blocked }).unwrap();
    handle_command(&mut store, Command::Comment { ticket_id: 1, text: "a note".to_string() }).unwrap();
    store
}

fn sorted(mut s: StoreSnapshot) -> StoreSnapshot {
    s.tickets.sort_by_key(|t| t.id);
    s
}

#[test]
fn load_what_you_save() {
    let store = sample_store();

    let snapshot = save(&store);
    let loaded_store = load(Some(snapshot.clone())).unwrap();

    assert_eq!(sorted(save(&loaded_store)), sorted(snapshot));
    assert_eq!(loaded_store.current_id(), 3);
    assert_eq!(loaded_store.list().len(), 2);
    assert_eq!(loaded_store.get(2), None);
    let one = loaded_store.get(1).unwrap();
    assert_eq!(one.comments()[0].as_str(), "a note");
    assert_eq!(loaded_store.get(3).unwrap().status(), Status::Blocked);
}

#[test]
fn return_default_if_the_file_is_missing() {
    let store = load(None).unwrap();

    assert_eq!(store.current_id(), 0);
    assert!(store.list().is_empty());
}

#[test]
fn saved_snapshot_lists_every_ticket() {
    let snapshot = sorted(save(&sample_store()));
    assert_eq!(snapshot.current_id, 3);
    assert_eq!(snapshot.tickets.len(), 2);
    assert_eq!(snapshot.tickets[0].id, 1);
    assert_eq!(snapshot.tickets[0].title, "One");
    assert_eq!(snapshot.tickets[0].description, "first");
    assert_eq!(snapshot.tickets[0].comments, vec!["a note".to_string()]);
    assert_eq!(snapshot.tickets[1].id, 3);
    assert_eq!(snapshot.tickets[1].status, Status::Blocked);
}

#[test]
fn restored_store_keeps_issuing_after_the_last_id() {
    let snapshot = StoreSnapshot { current_id: 9, tickets: vec![record(4, "four")] };
    let mut store = restore(&snapshot).unwrap();
    let outcome = handle_command(
        &mut store,
        Command::Create { title: "next".to_string(), description: String::new() },
    );
    assert_eq!(outcome, Ok(jira::command::Outcome::Created(10)));
}

#[test]
fn corrupt_snapshots_are_refused() {
    let dup = StoreSnapshot { current_id: 5, tickets: vec![record(1, "a"), record(1, "b")] };
    assert_eq!(restore(&dup).err(), Some(SnapshotError::DuplicateId(1)));

    let unissued = StoreSnapshot { current_id: 1, tickets: vec![record(2, "a")] };
    assert_eq!(restore(&unissued).err(), Some(SnapshotError::IdNotIssued(2)));

    let zero = StoreSnapshot { current_id: 1, tickets: vec![record(0, "a")] };
    assert_eq!(restore(&zero).err(), Some(SnapshotError::IdNotIssued(0)));

    let empty_title = StoreSnapshot { current_id: 1, tickets: vec![record(1, "")] };
    assert_eq!(restore(&empty_title).err(), Some(SnapshotError::InvalidTicket(1)));

    let mut bad_comment = record(1, "ok");
    bad_comment.comments.push(String::new());
    let snapshot = StoreSnapshot { current_id: 1, tickets: vec![bad_comment] };
    assert_eq!(load(Some(snapshot)).err(), Some(SnapshotError::InvalidTicket(1)));
}
