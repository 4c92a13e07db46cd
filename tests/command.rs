use jira::command::{handle_command, Command, Outcome};
use jira::error::ValidationError;
use jira::status::Status;
use jira::store::TicketStore;

fn create(store: &mut TicketStore, title: &str) -> Result<Outcome, ValidationError> {
    handle_command(
        store,
        Command::Create { title: title.to_string(), description: String::new() },
    )
}

#[test]
fn create_issues_ids_in_order() {
    let mut store = TicketStore::new();
    assert_eq!(create(&mut store, "a"), Ok(Outcome::Created(1)));
    assert_eq!(create(&mut store, "b"), Ok(Outcome::Created(2)));
    assert_eq!(create(&mut store, ""), Err(ValidationError::EmptyTitle));
    assert_eq!(create(&mut store, "c"), Ok(Outcome::Created(3)));
}

#[test]
fn create_validates_the_description() {
    let mut store = TicketStore::new();
    let r = handle_command(
        &mut store,
        Command::Create { title: "t".to_string(), description: "d".repeat(3001) },
    );
    assert_eq!(r, Err(ValidationError::DescriptionTooLong));
    assert!(store.list().is_empty());
    assert_eq!(store.current_id(), 0);
}

#[test]
fn edit_replaces_present_fields() {
    let mut store = TicketStore::new();
    create(&mut store, "old").unwrap();
    let r = handle_command(
        &mut store,
        Command::Edit { ticket_id: 1, title: None, description: Some("new text".to_string()) },
    );
    assert_eq!(r, Ok(Outcome::Updated(1)));
    let t = store.get(1).unwrap();
    assert_eq!(t.title().as_str(), "old");
    assert_eq!(t.description().as_str(), "new text");

    let r = handle_command(
        &mut store,
        Command::Edit { ticket_id: 1, title: Some("x".repeat(51)), description: None },
    );
    assert_eq!(r, Err(ValidationError::TitleTooLong));
    assert_eq!(store.get(1).unwrap().title().as_str(), "old");

    let r = handle_command(
        &mut store,
        Command::Edit { ticket_id: 8, title: Some("fine".to_string()), description: None },
    );
    assert_eq!(r, Ok(Outcome::NotFound(8)));
}

#[test]
fn move_delete_comment_and_list() {
    let mut store = TicketStore::new();
    create(&mut store, "a").unwrap();
    assert_eq!(
        handle_command(&mut store, Command::Move { ticket_id: 1, status: Status::InProgress }),
        Ok(Outcome::Updated(1))
    );
    assert_eq!(
        handle_command(&mut store, Command::Move { ticket_id: 2, status: Status::Done }),
        Ok(Outcome::NotFound(2))
    );
    assert_eq!(
        handle_command(&mut store, Command::Comment { ticket_id: 1, text: String::new() }),
        Err(ValidationError::EmptyComment)
    );
    assert_eq!(
        handle_command(&mut store, Command::Comment { ticket_id: 1, text: "hi".to_string() }),
        Ok(Outcome::Updated(1))
    );
    assert_eq!(handle_command(&mut store, Command::List), Ok(Outcome::Listed));
    match handle_command(&mut store, Command::Delete { ticket_id: 1 }) {
        Ok(Outcome::Deleted(d)) => {
            assert_eq!(d.ticket().status(), Status::InProgress);
            assert_eq!(d.ticket().comments().len(), 1);
        }
        other => panic!("unexpected outcome {:?}", other),
    }
    assert_eq!(
        handle_command(&mut store, Command::Delete { ticket_id: 1 }),
        Ok(Outcome::NotFound(1))
    );
}
