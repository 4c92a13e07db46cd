use crate::error::ValidationError;
use vstd::prelude::*;
use vstd::string::*;

verus! {

/// A comment holds at least one character.
pub open spec fn is_valid_comment(s: Seq<char>) -> bool {
    s.len() >= 1
}

/// A comment attached to a ticket: a string that passed validation.
#[derive(Debug, PartialEq, Eq, Hash)]
pub struct Comment {
    comment: String,
}

impl View for Comment {
    type V = Seq<char>;

    closed spec fn view(&self) -> Seq<char> {
        self.comment@
    }
}

impl Comment {
    /// Every comment in existence is valid.
    #[verifier::type_invariant]
    pub open spec fn inv(&self) -> bool {
        is_valid_comment(self@)
    }

    /// Validates `comment`: it fails exactly when `comment` is empty, and
    /// otherwise keeps the text unchanged.
    pub fn new(comment: String) -> (r: Result<Comment, ValidationError>)
        ensures
            r is Ok <==> is_valid_comment(comment@),
            r matches Ok(c) ==> c@ == comment@,
            r matches Err(e) ==> e == ValidationError::EmptyComment,
    {
        if comment.as_str().unicode_len() == 0 {
            Err(ValidationError::EmptyComment)
        } else {
            Ok(Comment { comment })
        }
    }

    /// The text of the comment.
    pub fn as_str(&self) -> (r: &str)
        ensures
            r@ == self@,
            is_valid_comment(r@),
    {
        proof {
            use_type_invariant(self);
        }
        self.comment.as_str()
    }
}

impl Clone for Comment {
    fn clone(&self) -> (r: Comment)
        ensures
            r@ == self@,
    {
        proof {
            use_type_invariant(self);
        }
        Comment { comment: self.comment.clone() }
    }
}

} // verus!
