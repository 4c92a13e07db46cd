use crate::comment::is_valid_comment;
use crate::description::{is_valid_description, Description};
use crate::draft::{draft_check, PatchView, TicketDraft, TicketPatch};
use crate::error::ValidationError;
use crate::status::Status;
use crate::store::{
    after_create, after_delete, next_id, patched, with_comment, with_status, with_ticket,
    DeletedTicket, TicketId, TicketStore,
};
use crate::title::{Title, TITLE_MAX_CHARS};
use vstd::prelude::*;

verus! {

/// An action that a user asks of the tracker.
#[derive(Debug, Clone, PartialEq, Eq)]
pub enum Command {
    /// Create a ticket.
    Create { title: String, description: String },
    /// Replace the title or the description of a ticket, or both.
    Edit { ticket_id: TicketId, title: Option<String>, description: Option<String> },
    /// Delete a ticket.
    Delete { ticket_id: TicketId },
    /// List every ticket.
    List,
    /// Give a ticket another status.
    Move { ticket_id: TicketId, status: Status },
    /// Add a comment to a ticket.
    Comment { ticket_id: TicketId, text: String },
}

/// What came of a command that passed validation.
#[derive(Debug, Clone, PartialEq, Eq)]
pub enum Outcome {
    /// A ticket was created under this identifier.
    Created(TicketId),
    /// The ticket under this identifier was changed.
    Updated(TicketId),
    /// This ticket was deleted.
    Deleted(DeletedTicket),
    /// No ticket is filed under this identifier; nothing changed.
    NotFound(TicketId),
    /// Nothing changed; the caller shows the tickets of the store.
    Listed,
}

/// What validation makes of the optional title and description of an edit:
/// the title is checked first.
pub open spec fn edit_check(title: Option<Seq<char>>, description: Option<Seq<char>>) -> Result<PatchView, ValidationError> {
    if title matches Some(t) && t.len() == 0 {
        Err(ValidationError::EmptyTitle)
    } else if title matches Some(t) && t.len() > TITLE_MAX_CHARS {
        Err(ValidationError::TitleTooLong)
    } else if description matches Some(d) && !is_valid_description(d) {
        Err(ValidationError::DescriptionTooLong)
    } else {
        Ok(PatchView { title, description })
    }
}

/// The characters of an optional string.
pub open spec fn opt_text(s: Option<String>) -> Option<Seq<char>> {
    match s {
        Some(x) => Some(x@),
        None => None,
    }
}

/// Carries out `command` on `store`. Raw text is validated first: a
/// command with a text that fails validation changes nothing and hands back
/// the error. A command on an identifier under which no ticket is filed
/// changes nothing and reports it.
pub fn handle_command(store: &mut TicketStore, command: Command) -> (r: Result<Outcome, ValidationError>)
    requires
        command is Create ==> old(store)@.current_id < TicketId::MAX,
    ensures
        match command {
            Command::Create { title, description } => match draft_check(title@, description@) {
                Err(e) => r == Err::<Outcome, ValidationError>(e) && final(store)@ == old(store)@,
                Ok(d) => {
                    &&& r == Ok::<Outcome, ValidationError>(Outcome::Created(next_id(old(store)@) as TicketId))
                    &&& final(store)@ == after_create(old(store)@, d)
                },
            },
            Command::Edit { ticket_id, title, description } => match edit_check(opt_text(title), opt_text(description)) {
                Err(e) => r == Err::<Outcome, ValidationError>(e) && final(store)@ == old(store)@,
                Ok(p) => if old(store)@.tickets.contains_key(ticket_id) {
                    &&& r == Ok::<Outcome, ValidationError>(Outcome::Updated(ticket_id))
                    &&& final(store)@ == with_ticket(old(store)@, ticket_id, patched(old(store)@.tickets[ticket_id], p))
                } else {
                    r == Ok::<Outcome, ValidationError>(Outcome::NotFound(ticket_id)) && final(store)@ == old(store)@
                },
            },
            Command::Delete { ticket_id } => {
                &&& final(store)@ == after_delete(old(store)@, ticket_id)
                &&& if old(store)@.tickets.contains_key(ticket_id) {
                    r matches Ok(Outcome::Deleted(d)) && d.0@ == old(store)@.tickets[ticket_id]
                } else {
                    r == Ok::<Outcome, ValidationError>(Outcome::NotFound(ticket_id))
                }
            },
            Command::List => r == Ok::<Outcome, ValidationError>(Outcome::Listed) && final(store)@ == old(store)@,
            Command::Move { ticket_id, status } => if old(store)@.tickets.contains_key(ticket_id) {
                &&& r == Ok::<Outcome, ValidationError>(Outcome::Updated(ticket_id))
                &&& final(store)@ == with_ticket(old(store)@, ticket_id, with_status(old(store)@.tickets[ticket_id], status))
            } else {
                r == Ok::<Outcome, ValidationError>(Outcome::NotFound(ticket_id)) && final(store)@ == old(store)@
            },
            Command::Comment { ticket_id, text } => if !is_valid_comment(text@) {
                r == Err::<Outcome, ValidationError>(ValidationError::EmptyComment) && final(store)@ == old(store)@
            } else if old(store)@.tickets.contains_key(ticket_id) {
                &&& r == Ok::<Outcome, ValidationError>(Outcome::Updated(ticket_id))
                &&& final(store)@ == with_ticket(old(store)@, ticket_id, with_comment(old(store)@.tickets[ticket_id], text@))
            } else {
                r == Ok::<Outcome, ValidationError>(Outcome::NotFound(ticket_id)) && final(store)@ == old(store)@
            },
        },
{
    match command {
        Command::Create { title, description } => {
            let draft = match TicketDraft::new(title, description) {
                Ok(d) => d,
                Err(e) => return Err(e),
            };
            let id = store.create(draft);
            Ok(Outcome::Created(id))
        },
        Command::Edit { ticket_id, title, description } => {
            let title = match title {
                None => None,
                Some(s) => match Title::new(s) {
                    Ok(t) => Some(t),
                    Err(e) => return Err(e),
                },
            };
            let description = match description {
                None => None,
                Some(s) => match Description::new(s) {
                    Ok(d) => Some(d),
                    Err(e) => return Err(e),
                },
            };
            match store.update_ticket(ticket_id, TicketPatch { title, description }) {
                Some(()) => Ok(Outcome::Updated(ticket_id)),
                None => Ok(Outcome::NotFound(ticket_id)),
            }
        },
        Command::Delete { ticket_id } => match store.delete(ticket_id) {
            Some(d) => Ok(Outcome::Deleted(d)),
            None => Ok(Outcome::NotFound(ticket_id)),
        },
        Command::List => Ok(Outcome::Listed),
        Command::Move { ticket_id, status } => match store.update_ticket_status(ticket_id, status) {
            Some(()) => Ok(Outcome::Updated(ticket_id)),
            None => Ok(Outcome::NotFound(ticket_id)),
        },
        Command::Comment { ticket_id, text } => match store.add_comment_to_ticket(ticket_id, text) {
            Err(e) => Err(e),
            Ok(Some(())) => Ok(Outcome::Updated(ticket_id)),
            Ok(None) => Ok(Outcome::NotFound(ticket_id)),
        },
    }
}

} // verus!
