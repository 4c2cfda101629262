//! Crate-wide error kinds and the text that is logged for an error chain.

use vstd::prelude::*;

use crate::text::views_of;

verus! {

/// The main crate-wide error kind.
#[derive(Clone, Copy, Debug, PartialEq, Eq, Structural)]
pub enum ErrorKind {
    /// Connection error
    Connection,
    /// A Url error
    Url,
    /// A Tell error
    Tell,
    /// A Factoid error
    Factoid,
    /// A Remind error
    Remind,
    /// A background task could not be started
    ThreadSpawn,
}

pub open spec fn kind_text(k: ErrorKind) -> Seq<char> {
    match k {
        ErrorKind::Connection => "A connection error occured"@,
        ErrorKind::Url => "A Url error has occured"@,
        ErrorKind::Tell => "A Tell error has occured"@,
        ErrorKind::Factoid => "A Factoid error has occured"@,
        ErrorKind::Remind => "A Remind error has occured"@,
        ErrorKind::ThreadSpawn => "Failed to spawn a thread"@,
    }
}

impl ErrorKind {
    /// The display text of this kind.
    pub fn text(&self) -> (r: &'static str)
        ensures
            r@ == kind_text(*self),
    {
        match self {
            ErrorKind::Connection => "A connection error occured",
            ErrorKind::Url => "A Url error has occured",
            ErrorKind::Tell => "A Tell error has occured",
            ErrorKind::Factoid => "A Factoid error has occured",
            ErrorKind::Remind => "A Remind error has occured",
            ErrorKind::ThreadSpawn => "Failed to spawn a thread",
        }
    }
}

/// An error with its kind and the messages of the errors that caused it,
/// the closest cause first.
#[derive(Clone, Debug)]
pub struct FrippyError {
    pub kind: ErrorKind,
    pub causes: Vec<String>,
}

/// `head`, followed by `": "` and each cause in turn.
pub open spec fn chain_text(head: Seq<char>, causes: Seq<Seq<char>>) -> Seq<char>
    decreases causes.len(),
{
    if causes.len() == 0 {
        head
    } else {
        chain_text(head, causes.drop_last()) + ": "@ + causes.last()
    }
}

impl FrippyError {
    pub open spec fn text_spec(&self) -> Seq<char> {
        chain_text(kind_text(self.kind), views_of(self.causes@))
    }
}

/// The line that is logged for `e`: its own message, then each cause.
pub fn log_error(e: &FrippyError) -> (r: String)
    ensures
        r@ == e.text_spec(),
{
    let mut text = String::from_str(e.kind.text());
    let n = e.causes.len();
    let mut i: usize = 0;
    while i < n
        invariant
            n == e.causes@.len(),
            0 <= i <= n,
            text@ == chain_text(kind_text(e.kind), views_of(e.causes@).take(i as int)),
        decreases n - i,
    {
        proof {
            let vs = views_of(e.causes@);
            assert(vs.take(i as int + 1).drop_last() =~= vs.take(i as int));
        }
        text.append(": ");
        text.append(e.causes[i].as_str());
        i = i + 1;
    }
    proof {
        assert(views_of(e.causes@).take(n as int) =~= views_of(e.causes@));
    }
    text
}

} // verus!
