//! What every handler offers, the events it is shown, and the addressed
//! commands that are parsed out of them.

use vstd::prelude::*;

use crate::error::FrippyError;
use crate::text::{lower_of, lowercase, split_on_spaces, split_spaces, views_of};

verus! {

/// The kind of an inbound event.
#[derive(Clone, Copy, Debug, PartialEq, Eq, Structural)]
pub enum EventKind {
    /// A message sent to a channel or to the bot.
    Message,
    /// Someone joined a channel.
    Join,
    /// Anything else the network reports.
    Other,
}

/// One inbound event, as the handlers see it.
#[derive(Clone, Debug)]
pub struct Event {
    pub kind: EventKind,
    /// The nickname that caused the event.
    pub source: String,
    /// Where a reply goes: the channel if the event targeted one,
    /// else the source.
    pub reply_target: String,
    /// The text of a message; empty for other kinds.
    pub text: String,
}

/// Describes whether a handler is done with an event or needs a
/// background task for it.
#[derive(Clone, Debug)]
pub enum ExecutionStatus {
    /// The handler does not need to do any more work on this event.
    Done,
    /// An error occured during the execution.
    Failed(FrippyError),
    /// The work has to be done by `Plugin::execute_threaded`.
    RequiresThread,
}

/// Gives the name under which a handler is registered.
pub trait PluginName {
    /// The name that `name` returns, where the handler states it. A
    /// handler that does not (the default) claims nothing of its name.
    open spec fn name_spec(&self) -> Option<Seq<char>> {
        None
    }

    /// Returns the name of the handler.
    fn name(&self) -> (r: &str)
        ensures
            self.name_spec() matches Some(n) ==> r@ == n,
    ;
}

/// A behavior unit of the bot.
pub trait Plugin: PluginName {
    type Client;

    /// The outcomes that the fast path may give for `event`. A handler
    /// that does not state them (the default) allows any outcome.
    open spec fn fast_path(&self, event: Event, status: ExecutionStatus) -> bool {
        true
    }

    /// Handles an event on the caller's thread, or asks for a background
    /// task with `RequiresThread`. Must not block.
    fn execute(&self, client: &Self::Client, event: &Event) -> (r: ExecutionStatus)
        ensures
            self.fast_path(*event, r),
    ;

    /// Handles an event in a background task.
    fn execute_threaded(&self, client: &Self::Client, event: &Event) -> Result<(), FrippyError>;

    /// Handles a command directed at this handler.
    fn command(&self, client: &Self::Client, command: PluginCommand) -> Result<(), FrippyError>;

    /// Like `command`, but returns the reply instead of sending it.
    fn evaluate(&self, client: &Self::Client, command: PluginCommand) -> Result<String, String>;
}

/// A command sent by a user to the bot.
#[derive(Clone, Debug)]
pub struct PluginCommand {
    /// The sender of the command.
    pub source: String,
    /// The channel the command was sent to, or else the sender.
    pub target: String,
    /// The rest of the message, split by single spaces.
    pub tokens: Vec<String>,
}

/// The characters that may follow the bot's name when it is addressed.
pub open spec fn is_addressing_punct(c: char) -> bool {
    c == ':' || c == ','
}

/// The first token of `text`, with `prefix` stripped off after case
/// folding, holds nothing but addressing punctuation.
pub open spec fn addressed(prefix: Seq<char>, text: Seq<char>) -> bool {
    let first = lower_of(split_spaces(text)[0]);
    let p = lower_of(prefix);
    &&& p.is_prefix_of(first)
    &&& forall|i: int| p.len() <= i < first.len() ==> is_addressing_punct(#[trigger] first[i])
}

/// Whether `word` starts with `p` and holds only addressing punctuation
/// after it.
fn strips_to_punct(word: &str, p: &str) -> (r: bool)
    ensures
        r == (p@.is_prefix_of(word@) && forall|i: int|
            p@.len() <= i < word@.len() ==> is_addressing_punct(#[trigger] word@[i])),
{
    let n = word.unicode_len();
    let m = p.unicode_len();
    if m > n {
        return false;
    }
    let mut i: usize = 0;
    while i < m
        invariant
            m <= n,
            n == word@.len(),
            m == p@.len(),
            i <= m,
            forall|k: int| 0 <= k < i ==> p@[k] == word@[k],
        decreases m - i,
    {
        if p.get_char(i) != word.get_char(i) {
            proof {
                assert(word@.subrange(0, m as int)[i as int] == word@[i as int]);
            }
            return false;
        }
        i = i + 1;
    }
    assert(p@ =~= word@.subrange(0, m as int));
    let mut j: usize = m;
    while j < n
        invariant
            m <= j <= n,
            n == word@.len(),
            m == p@.len(),
            forall|k: int| m <= k < j ==> is_addressing_punct(#[trigger] word@[k]),
        decreases n - j,
    {
        let c = word.get_char(j);
        if !(c == ':' || c == ',') {
            return false;
        }
        j = j + 1;
    }
    true
}

impl PluginCommand {
    /// Parses `event` as a command when it is a message whose first token
    /// is `prefix` (case-folded), followed by nothing but addressing
    /// punctuation. The first token is dropped; the rest become the
    /// tokens.
    pub fn try_from(prefix: &str, event: &Event) -> (r: Option<PluginCommand>)
        ensures
            r is Some <==> (event.kind == EventKind::Message && addressed(prefix@, event.text@)),
            r matches Some(c) ==> {
                &&& c.source@ == event.source@
                &&& c.target@ == event.reply_target@
                &&& views_of(c.tokens@) == split_spaces(event.text@).drop_first()
            },
    {
        match event.kind {
            EventKind::Message => {},
            _ => {
                return None;
            },
        }
        let mut tokens = split_on_spaces(event.text.as_str());
        let first = lowercase(tokens[0].as_str());
        let p = lowercase(prefix);
        proof {
            assert(views_of(tokens@)[0] == tokens@[0]@);
        }
        if !strips_to_punct(first.as_str(), p.as_str()) {
            return None;
        }
        let ghost before = tokens@;
        tokens.remove(0);
        proof {
            assert(views_of(tokens@) =~= views_of(before).drop_first());
        }
        Some(
            PluginCommand {
                source: event.source.clone(),
                target: event.reply_target.clone(),
                tokens,
            },
        )
    }
}

} // verus!
