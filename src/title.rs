use crate::error::ValidationError;
use vstd::prelude::*;
use vstd::string::*;

verus! {

/// The largest number of characters a title may hold.
pub const TITLE_MAX_CHARS: usize = 50;

/// A title is between one and fifty characters long (characters, not bytes).
pub open spec fn is_valid_title(s: Seq<char>) -> bool {
    1 <= s.len() <= TITLE_MAX_CHARS
}

/// The title of a ticket: a string that passed validation.
#[derive(Debug, PartialEq, Eq, Hash)]
pub struct TicketTitle {
    title: String,
}

/// The title of a ticket, under its short name.
pub type Title = TicketTitle;

impl View for TicketTitle {
    type V = Seq<char>;

    closed spec fn view(&self) -> Seq<char> {
        self.title@
    }
}

impl TicketTitle {
    /// Every title in existence is valid.
    #[verifier::type_invariant]
    pub open spec fn inv(&self) -> bool {
        is_valid_title(self@)
    }

    /// Validates `title`: it fails when `title` is empty or longer than fifty
    /// characters, and otherwise keeps the text unchanged.
    pub fn new(title: String) -> (r: Result<TicketTitle, ValidationError>)
        ensures
            r is Ok <==> is_valid_title(title@),
            r matches Ok(t) ==> t@ == title@,
            r matches Err(e) ==> (title@.len() == 0 <==> e == ValidationError::EmptyTitle),
            r matches Err(e) ==> (title@.len() > TITLE_MAX_CHARS <==> e == ValidationError::TitleTooLong),
    {
        let n = title.as_str().unicode_len();
        if n == 0 {
            Err(ValidationError::EmptyTitle)
        } else if n > TITLE_MAX_CHARS {
            Err(ValidationError::TitleTooLong)
        } else {
            Ok(TicketTitle { title })
        }
    }

    /// The text of the title.
    pub fn as_str(&self) -> (r: &str)
        ensures
            r@ == self@,
            is_valid_title(r@),
    {
        proof {
            use_type_invariant(self);
        }
        self.title.as_str()
    }
}

impl Clone for TicketTitle {
    fn clone(&self) -> (r: TicketTitle)
        ensures
            r@ == self@,
    {
        proof {
            use_type_invariant(self);
        }
        TicketTitle { title: self.title.clone() }
    }
}

} // verus!
