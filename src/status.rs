use vstd::prelude::*;
use vstd::string::*;

verus! {

/// Where a ticket stands in its lifecycle.
#[derive(Debug, Clone, Copy, PartialEq, Eq, Hash, Structural)]
pub enum Status {
    ToDo,
    InProgress,
    Blocked,
    Done,
}

/// The status that a lowercase name stands for, if any: `todo` or `to-do`,
/// `inprogress` or `in-progress`, `blocked`, `done`.
pub open spec fn status_named(t: Seq<char>) -> Option<Status> {
    if t == "todo"@ || t == "to-do"@ {
        Some(Status::ToDo)
    } else if t == "inprogress"@ || t == "in-progress"@ {
        Some(Status::InProgress)
    } else if t == "blocked"@ {
        Some(Status::Blocked)
    } else if t == "done"@ {
        Some(Status::Done)
    } else {
        None
    }
}

/// What `str::to_lowercase` makes of a text.
pub uninterp spec fn lower_of(s: Seq<char>) -> Seq<char>;

/// Relies on `str::to_lowercase`: the result depends on the characters alone.
#[verifier::external_body]
fn lowercase(s: &str) -> (r: String)
    ensures
        r@ == lower_of(s@),
{
    s.to_lowercase()
}

/// Refusal of a text that names no status.
#[derive(Debug, Clone, PartialEq, Eq)]
pub struct ParsingError {
    /// The text that was refused.
    pub input: String,
}

/// Whether two texts hold the same characters.
fn same_text(a: &str, b: &str) -> (r: bool)
    ensures
        r == (a@ == b@),
{
    let n = a.unicode_len();
    if n != b.unicode_len() {
        return false;
    }
    let mut i: usize = 0;
    while i < n
        invariant
            n == a@.len(),
            n == b@.len(),
            i <= n,
            forall|j: int| 0 <= j < i ==> a@[j] == b@[j],
        decreases n - i,
    {
        if a.get_char(i) != b.get_char(i) {
            return false;
        }
        i = i + 1;
    }
    assert(a@ =~= b@);
    true
}

impl Status {
    /// The status named by `t`, a name already in lowercase.
    pub fn from_lowercase(t: &str) -> (r: Option<Status>)
        ensures
            r == status_named(t@),
    {
        if same_text(t, "todo") || same_text(t, "to-do") {
            Some(Status::ToDo)
        } else if same_text(t, "inprogress") || same_text(t, "in-progress") {
            Some(Status::InProgress)
        } else if same_text(t, "blocked") {
            Some(Status::Blocked)
        } else if same_text(t, "done") {
            Some(Status::Done)
        } else {
            None
        }
    }

    /// Reads a status name, in any case; a text that names no status is
    /// refused and handed back in the error.
    pub fn parse(s: &str) -> (r: Result<Status, ParsingError>)
        ensures
            r matches Ok(st) ==> status_named(lower_of(s@)) == Some(st),
            r matches Err(e) ==> status_named(lower_of(s@)) is None && e.input@ == s@,
    {
        let lowered = lowercase(s);
        match Status::from_lowercase(lowered.as_str()) {
            Some(st) => Ok(st),
            None => Err(ParsingError { input: s.to_owned() }),
        }
    }
}

impl std::str::FromStr for Status {
    type Err = ParsingError;

    fn from_str(s: &str) -> Result<Status, ParsingError> {
        Status::parse(s)
    }
}

} // verus!
