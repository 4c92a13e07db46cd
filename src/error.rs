use vstd::prelude::*;

verus! {

/// Why a raw string was refused by one of the validating constructors.
#[derive(Debug, Clone, Copy, PartialEq, Eq, Structural)]
pub enum ValidationError {
    /// A title must hold at least one character.
    EmptyTitle,
    /// A title may hold at most fifty characters.
    TitleTooLong,
    /// A description may hold at most three thousand characters.
    DescriptionTooLong,
    /// A comment must hold at least one character.
    EmptyComment,
}

/// The error of [`crate::title::Title::new`].
pub type TitleError = ValidationError;

/// The error of [`crate::comment::Comment::new`].
pub type CommentError = ValidationError;

} // verus!
