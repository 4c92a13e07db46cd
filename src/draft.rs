use crate::description::{is_valid_description, Description};
use crate::error::ValidationError;
use crate::title::{is_valid_title, Title, TITLE_MAX_CHARS};
use vstd::prelude::*;

verus! {

/// The content of a ticket that the store has not yet saved.
#[derive(Debug, Clone, PartialEq, Eq)]
pub struct TicketDraft {
    pub title: Title,
    pub description: Description,
}

/// A draft seen as plain text.
pub struct DraftView {
    pub title: Seq<char>,
    pub description: Seq<char>,
}

impl View for TicketDraft {
    type V = DraftView;

    open spec fn view(&self) -> DraftView {
        DraftView { title: self.title@, description: self.description@ }
    }
}

/// What validation makes of a title and a description: the title is checked
/// first, then the description.
pub open spec fn draft_check(title: Seq<char>, description: Seq<char>) -> Result<DraftView, ValidationError> {
    if title.len() == 0 {
        Err(ValidationError::EmptyTitle)
    } else if title.len() > TITLE_MAX_CHARS {
        Err(ValidationError::TitleTooLong)
    } else if !is_valid_description(description) {
        Err(ValidationError::DescriptionTooLong)
    } else {
        Ok(DraftView { title, description })
    }
}

impl TicketDraft {
    /// Validates a title and a description into a draft.
    pub fn new(title: String, description: String) -> (r: Result<TicketDraft, ValidationError>)
        ensures
            match r {
                Ok(d) => draft_check(title@, description@) == Ok::<DraftView, ValidationError>(d@),
                Err(e) => draft_check(title@, description@) == Err::<DraftView, ValidationError>(e),
            },
    {
        let title = match Title::new(title) {
            Ok(t) => t,
            Err(e) => return Err(e),
        };
        let description = match Description::new(description) {
            Ok(d) => d,
            Err(e) => return Err(e),
        };
        Ok(TicketDraft { title, description })
    }

    /// The title of the draft.
    pub fn title(&self) -> (r: &Title)
        ensures
            r@ == self.title@,
    {
        &self.title
    }

    /// The description of the draft.
    pub fn description(&self) -> (r: &Description)
        ensures
            r@ == self.description@,
    {
        &self.description
    }
}

/// Builds a draft from a title and a description that are known to be valid.
pub fn create_ticket_draft(title: String, description: String) -> (r: TicketDraft)
    requires
        is_valid_title(title@),
        is_valid_description(description@),
    ensures
        r@ == (DraftView { title: title@, description: description@ }),
{
    let title = Title::new(title).unwrap();
    let description = Description::new(description).unwrap();
    TicketDraft { title, description }
}

/// A partial update of a ticket: an absent field is left unchanged, a present
/// one replaces the ticket's.
#[derive(Debug, Clone, PartialEq, Eq)]
pub struct TicketPatch {
    pub title: Option<Title>,
    pub description: Option<Description>,
}

/// A patch seen as plain text.
pub struct PatchView {
    pub title: Option<Seq<char>>,
    pub description: Option<Seq<char>>,
}

impl View for TicketPatch {
    type V = PatchView;

    open spec fn view(&self) -> PatchView {
        PatchView {
            title: match self.title {
                Some(t) => Some(t@),
                None => None,
            },
            description: match self.description {
                Some(d) => Some(d@),
                None => None,
            },
        }
    }
}

} // verus!
