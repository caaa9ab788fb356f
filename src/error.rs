use vstd::prelude::*;

verus! {

/// What can go wrong in a workflow command.
#[derive(Debug, Clone)]
pub enum Error {
    /// A malformed entry in the worktree listing; holds a description of it.
    Parse(String),
    /// No worktree hosts a branch that is needed; holds a description.
    NotFound(String),
    /// An external command reported failure; holds what it reported.
    Command(String),
    /// Something that should not exist already does.
    Conflict(String),
}

/// What an `Error` holds, as character sequences.
pub enum ErrorModel {
    Parse(Seq<char>),
    NotFound(Seq<char>),
    Command(Seq<char>),
    Conflict(Seq<char>),
}

impl View for Error {
    type V = ErrorModel;

    open spec fn view(&self) -> ErrorModel {
        match self {
            Error::Parse(m) => ErrorModel::Parse(m@),
            Error::NotFound(m) => ErrorModel::NotFound(m@),
            Error::Command(m) => ErrorModel::Command(m@),
            Error::Conflict(m) => ErrorModel::Conflict(m@),
        }
    }
}

impl Error {
    /// The message that the error carries.
    pub fn message(&self) -> (r: String)
        ensures
            r@ == match self@ {
                ErrorModel::Parse(m) => m,
                ErrorModel::NotFound(m) => m,
                ErrorModel::Command(m) => m,
                ErrorModel::Conflict(m) => m,
            },
    {
        match self {
            Error::Parse(m) => m.clone(),
            Error::NotFound(m) => m.clone(),
            Error::Command(m) => m.clone(),
            Error::Conflict(m) => m.clone(),
        }
    }
}

} // verus!
