use vstd::prelude::*;

verus! {

/// The errors that the operations of this library report.
#[derive(Debug)]
pub enum Error {
    /// a precondition of an operation does not hold
    Generic(String),
    /// HEAD is unborn or does not point to a branch
    NoHead,
    /// no remote is named `origin` and more than one remote is configured
    NoDefaultRemoteFound,
    /// the working tree holds changes that a checkout would overwrite
    UncommittedChanges,
    /// the branch to delete is the one HEAD points to
    CannotDeleteCurrentBranch,
    /// replaying a commit onto the upstream produced conflicts
    MergeConflict,
    /// an error reported by the version-control primitives, with its message
    Git(String),
}

impl Error {
    /// A human readable description of the error.
    pub fn message(&self) -> (r: String)
        ensures
            self is Generic ==> r@ == self->Generic_0@,
            self is Git ==> r@ == self->Git_0@,
            self is NoHead ==> r@ == "head not found"@,
            self is NoDefaultRemoteFound ==> r@ == "no default remote found"@,
            self is UncommittedChanges ==> r@ == "uncommitted changes"@,
            self is CannotDeleteCurrentBranch ==> r@ == "you cannot delete the branch you are on, switch branch first"@,
            self is MergeConflict ==> r@ == "conflicts while merging"@,
    {
        match self {
            Error::Generic(m) => m.clone(),
            Error::NoHead => String::from_str("head not found"),
            Error::NoDefaultRemoteFound => String::from_str("no default remote found"),
            Error::UncommittedChanges => String::from_str("uncommitted changes"),
            Error::CannotDeleteCurrentBranch => String::from_str("you cannot delete the branch you are on, switch branch first"),
            Error::MergeConflict => String::from_str("conflicts while merging"),
            Error::Git(m) => m.clone(),
        }
    }
}

} // verus!
