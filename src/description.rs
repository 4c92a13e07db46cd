use crate::error::ValidationError;
use vstd::prelude::*;
use vstd::string::*;

verus! {

/// The largest number of characters a description may hold.
pub const DESCRIPTION_MAX_CHARS: usize = 3000;

/// A description holds at most three thousand characters; it may be empty.
pub open spec fn is_valid_description(s: Seq<char>) -> bool {
    s.len() <= DESCRIPTION_MAX_CHARS
}

/// The description of a ticket: a string that passed validation.
#[derive(Debug, PartialEq, Eq, Hash)]
pub struct TicketDescription {
    description: String,
}

/// The description of a ticket, under its short name.
pub type Description = TicketDescription;

impl View for TicketDescription {
    type V = Seq<char>;

    closed spec fn view(&self) -> Seq<char> {
        self.description@
    }
}

impl TicketDescription {
    /// Every description in existence is valid.
    #[verifier::type_invariant]
    pub open spec fn inv(&self) -> bool {
        is_valid_description(self@)
    }

    /// Validates `description`: it fails exactly when `description` is longer
    /// than three thousand characters, and otherwise keeps the text unchanged.
    pub fn new(description: String) -> (r: Result<TicketDescription, ValidationError>)
        ensures
            r is Ok <==> is_valid_description(description@),
            r matches Ok(d) ==> d@ == description@,
            r matches Err(e) ==> e == ValidationError::DescriptionTooLong,
    {
        if description.as_str().unicode_len() > DESCRIPTION_MAX_CHARS {
            Err(ValidationError::DescriptionTooLong)
        } else {
            Ok(TicketDescription { description })
        }
    }

    /// The text of the description.
    pub fn as_str(&self) -> (r: &str)
        ensures
            r@ == self@,
            is_valid_description(r@),
    {
        proof {
            use_type_invariant(self);
        }
        self.description.as_str()
    }
}

impl Clone for TicketDescription {
    fn clone(&self) -> (r: TicketDescription)
        ensures
            r@ == self@,
    {
        proof {
            use_type_invariant(self);
        }
        TicketDescription { description: self.description.clone() }
    }
}

} // verus!
