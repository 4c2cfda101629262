//! Errors of the factoid handler.

use vstd::prelude::*;

verus! {

#[derive(Clone, Copy, Debug, PartialEq, Eq, Structural)]
pub enum ErrorKind {
    /// Invalid command error
    InvalidCommand,
    /// Invalid index error
    InvalidIndex,
    /// Download error
    Download,
    /// Duplicate error
    Duplicate,
    /// Not found error
    NotFound,
    /// The store cannot count any more versions
    Full,
}

pub open spec fn kind_text(k: ErrorKind) -> Seq<char> {
    match k {
        ErrorKind::InvalidCommand => "Invalid Command"@,
        ErrorKind::InvalidIndex => "Invalid index"@,
        ErrorKind::Download => "Download failed"@,
        ErrorKind::Duplicate => "Entry already exists"@,
        ErrorKind::NotFound => "Factoid was not found"@,
        ErrorKind::Full => "The factoid store is full"@,
    }
}

impl ErrorKind {
    /// The display text of this kind.
    pub fn text(&self) -> (r: &'static str)
        ensures
            r@ == kind_text(*self),
    {
        match self {
            ErrorKind::InvalidCommand => "Invalid Command",
            ErrorKind::InvalidIndex => "Invalid index",
            ErrorKind::Download => "Download failed",
            ErrorKind::Duplicate => "Entry already exists",
            ErrorKind::NotFound => "Factoid was not found",
            ErrorKind::Full => "The factoid store is full",
        }
    }
}

/// An error of the factoid handler.
#[derive(Clone, Copy, Debug, PartialEq, Eq, Structural)]
pub struct FactoidError {
    pub kind: ErrorKind,
}

/// `r` is an error of kind `k`.
pub open spec fn fails_with<X>(r: Result<X, FactoidError>, k: ErrorKind) -> bool {
    match r {
        Err(e) => e.kind == k,
        Ok(_) => false,
    }
}

impl FactoidError {
    pub fn new(kind: ErrorKind) -> (r: FactoidError)
        ensures
            r.kind == kind,
    {
        FactoidError { kind }
    }

    /// The message shown to users.
    pub fn text(&self) -> (r: &'static str)
        ensures
            r@ == kind_text(self.kind),
    {
        self.kind.text()
    }
}

} // verus!
