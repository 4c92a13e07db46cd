use jira::comment::Comment;
use jira::description::{Description, TicketDescription};
use jira::draft::{create_ticket_draft, TicketDraft};
use jira::error::ValidationError;
use jira::status::Status;
use jira::title::{TicketTitle, Title};
use std::str::FromStr;

fn text_of_len(n: usize) -> String {
    "x".repeat(n)
}

#[test]
fn creating_an_empty_title_should_fail() {
    let new_title = Title::new("".to_string());

    assert!(new_title.is_err())
}

#[test]
fn creating_empty_comment_should_fail() {
    let new_comment = Comment::new("".to_string());

    assert!(new_comment.is_err());
}

#[test]
fn title_cannot_be_empty() {
    assert!(TicketTitle::new("".into()).is_err())
}

#[test]
fn title_cannot_be_longer_than_fifty_chars() {
    let title = text_of_len(51);

    assert!(TicketTitle::new(title).is_err())
}

#[test]
fn description_cannot_be_longer_than_3000_chars() {
    let description = text_of_len(3001);

    assert!(TicketDescription::new(description).is_err())
}

#[test]
fn valid_tickets_can_be_created() {
    let title = text_of_len(50);
    let description = text_of_len(3000);

    let draft = TicketDraft::new(title.clone(), description.clone()).unwrap();
    assert_eq!(draft.title().as_str(), title);
    assert_eq!(draft.description().as_str(), description);
}

#[test]
fn title_round_trips_its_content() {
    for t in ["a", "Fix bug", "ünïcödé ✓", &text_of_len(50)] {
        let title = Title::new(t.to_string()).unwrap();
        assert_eq!(title.as_str(), t);
    }
}

#[test]
fn title_length_is_counted_in_characters() {
    // Fifty two-byte characters: a hundred bytes, fifty characters.
    let fifty = "é".repeat(50);
    assert!(Title::new(fifty).is_ok());
    let fifty_one = "é".repeat(51);
    assert_eq!(Title::new(fifty_one), Err(ValidationError::TitleTooLong));
}

#[test]
fn title_errors_name_the_defect() {
    assert_eq!(Title::new(String::new()), Err(ValidationError::EmptyTitle));
    assert_eq!(Title::new(text_of_len(51)), Err(ValidationError::TitleTooLong));
}

#[test]
fn description_limits() {
    assert!(Description::new(String::new()).is_ok());
    assert!(Description::new(text_of_len(3000)).is_ok());
    assert_eq!(
        Description::new(text_of_len(3001)),
        Err(ValidationError::DescriptionTooLong)
    );
    let d = Description::new("long text".to_string()).unwrap();
    assert_eq!(d.as_str(), "long text");
}

#[test]
fn comment_limits() {
    assert_eq!(Comment::new(String::new()), Err(ValidationError::EmptyComment));
    let c = Comment::new("hi".to_string()).unwrap();
    assert_eq!(c.as_str(), "hi");
}

#[test]
fn draft_checks_title_before_description() {
    assert_eq!(
        TicketDraft::new(String::new(), text_of_len(3001)),
        Err(ValidationError::EmptyTitle)
    );
    assert_eq!(
        TicketDraft::new(text_of_len(51), String::new()),
        Err(ValidationError::TitleTooLong)
    );
    assert_eq!(
        TicketDraft::new("ok".to_string(), text_of_len(3001)),
        Err(ValidationError::DescriptionTooLong)
    );
}

#[test]
fn create_ticket_draft_keeps_the_text() {
    let draft = create_ticket_draft("A ticket title".to_string(), "A heart-breaking description".to_string());
    assert_eq!(draft.title.as_str(), "A ticket title");
    assert_eq!(draft.description.as_str(), "A heart-breaking description");
}

#[test]
fn test_equality() {
    assert_eq!(Status::ToDo == Status::ToDo, true);
    assert_eq!(Status::Done == Status::ToDo, false);
    assert_eq!(Status::InProgress == Status::ToDo, false);
    assert_eq!(Status::InProgress == Status::InProgress, true);
}

#[test]
fn invalid_status_fails_to_be_parsed() {
    let invalid_status = "Not a good status";
    assert!(Status::from_str(invalid_status).is_err());
}

#[test]
fn status_names_are_read_in_any_case() {
    assert_eq!(Status::parse("todo"), Ok(Status::ToDo));
    assert_eq!(Status::parse("To-Do"), Ok(Status::ToDo));
    assert_eq!(Status::parse("INPROGRESS"), Ok(Status::InProgress));
    assert_eq!(Status::parse("in-progress"), Ok(Status::InProgress));
    assert_eq!(Status::parse("Blocked"), Ok(Status::Blocked));
    assert_eq!(Status::parse("DONE"), Ok(Status::Done));
    let err = Status::parse("Not a good status").unwrap_err();
    assert_eq!(err.input, "Not a good status");
    assert!(Status::parse("").is_err());
    assert!(Status::parse("to do").is_err());
}

#[test]
fn status_from_lowercase_needs_lowercase() {
    assert_eq!(Status::from_lowercase("done"), Some(Status::Done));
    assert_eq!(Status::from_lowercase("DONE"), None);
}
