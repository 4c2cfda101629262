//! The sandbox around factoid scripts: what a run is given, the limits
//! the host enforces, and the reply made of its outcome.

use vstd::prelude::*;

use crate::plugin::PluginCommand;
use crate::text::{byte_prefix, join, join_with, one_line, to_one_line, truncate_bytes, views_of};

verus! {

/// The memory a script may use, in bytes.
pub const MEMORY_LIMIT: usize = 1024 * 1024;

/// How long a script may run, in milliseconds from its start.
pub const TIMEOUT_MS: u64 = 30000;

/// The pause at each hook, in milliseconds, that bounds a tight loop's
/// use of the processor.
pub const HOOK_DELAY_MS: u64 = 1;

/// The longest reply a factoid gives, in bytes.
pub const REPLY_LIMIT: usize = 412;

/// The reply when a script went over its memory limit.
pub open spec fn memory_message() -> Seq<char> {
    "memory error: Factoid used over 1 MiB of ram"@
}

/// The reply when a script ran out of time.
pub open spec fn timeout_message() -> Seq<char> {
    "Factoid timed out after 30 seconds"@
}

/// Everything one run of a script is given.
#[derive(Clone, Debug)]
pub struct ScriptInvocation {
    /// The factoid's name, under which the code is loaded.
    pub name: String,
    /// The code, without its marker.
    pub code: String,
    /// The non-empty arguments.
    pub args: Vec<String>,
    /// All arguments, joined by spaces.
    pub input: String,
    /// Who invoked the factoid.
    pub user: String,
    /// Where it was invoked.
    pub channel: String,
}

/// How a script run ended without output.
#[derive(Clone, Debug)]
pub enum ScriptError {
    /// It went over the memory limit.
    Memory,
    /// It ran past the time limit.
    Timeout,
    /// Any other failure, with its display text.
    Runtime(String),
}

/// What the execution hook does.
#[derive(Clone, Copy, Debug, PartialEq, Eq, Structural)]
pub enum HookVerdict {
    /// Pause for `HOOK_DELAY_MS`, then go on.
    Continue,
    /// Abort the script: its time is up.
    Abort,
}

/// The hook's decision, `elapsed_ms` after the script started.
pub fn check_hook(elapsed_ms: u64) -> (r: HookVerdict)
    ensures
        r == (if elapsed_ms > TIMEOUT_MS {
            HookVerdict::Abort
        } else {
            HookVerdict::Continue
        }),
{
    if elapsed_ms > TIMEOUT_MS {
        HookVerdict::Abort
    } else {
        HookVerdict::Continue
    }
}

/// The tokens that are not empty, in order.
pub open spec fn nonempty_of(s: Seq<Seq<char>>) -> Seq<Seq<char>>
    decreases s.len(),
{
    if s.len() == 0 {
        s
    } else if s.last().len() == 0 {
        nonempty_of(s.drop_last())
    } else {
        nonempty_of(s.drop_last()).push(s.last())
    }
}

/// The arguments a script gets: the tokens that are not empty.
pub fn script_args(tokens: &Vec<String>) -> (r: Vec<String>)
    ensures
        views_of(r@) == nonempty_of(views_of(tokens@)),
{
    let n = tokens.len();
    let mut args: Vec<String> = Vec::new();
    let mut i: usize = 0;
    while i < n
        invariant
            n == tokens@.len(),
            i <= n,
            views_of(args@) == nonempty_of(views_of(tokens@).take(i as int)),
        decreases n - i,
    {
        proof {
            let vs = views_of(tokens@);
            assert(vs.take(i as int + 1).drop_last() =~= vs.take(i as int));
            assert(vs.take(i as int + 1).last() == tokens@[i as int]@);
        }
        if tokens[i].as_str().unicode_len() > 0 {
            let t = tokens[i].clone();
            let ghost before = args@;
            args.push(t);
            proof {
                assert(views_of(args@) =~= views_of(before).push(t@));
            }
        }
        i = i + 1;
    }
    proof {
        assert(views_of(tokens@).take(n as int) =~= views_of(tokens@));
    }
    args
}

/// What a run of `code` under the factoid `name` is given for `command`.
pub fn invocation(name: &str, code: &str, command: &PluginCommand) -> (r: ScriptInvocation)
    ensures
        r.name@ == name@,
        r.code@ == code@,
        views_of(r.args@) == nonempty_of(views_of(command.tokens@)),
        r.input@ == join_with(views_of(command.tokens@), " "@),
        r.user@ == command.source@,
        r.channel@ == command.target@,
{
    ScriptInvocation {
        name: name.to_owned(),
        code: code.to_owned(),
        args: script_args(&command.tokens),
        input: join(&command.tokens, " "),
        user: command.source.clone(),
        channel: command.target.clone(),
    }
}

/// A reply as it is sent: cut to at most `REPLY_LIMIT` bytes at a
/// character boundary, then put on one line.
pub open spec fn finished(s: Seq<char>) -> Seq<char> {
    one_line(byte_prefix(s, REPLY_LIMIT as int))
}

/// Cuts `s` to at most `REPLY_LIMIT` bytes and puts it on one line.
pub fn finish(s: &str) -> (r: String)
    ensures
        r@ == finished(s@),
{
    let cut = truncate_bytes(s, REPLY_LIMIT);
    to_one_line(cut.as_str())
}

/// The text a script run comes to, before it is finished for sending.
pub open spec fn outcome_text(result: Result<Vec<String>, ScriptError>) -> Seq<char> {
    match result {
        Ok(out) => join_with(views_of(out@), "|"@),
        Err(ScriptError::Memory) => memory_message(),
        Err(ScriptError::Timeout) => timeout_message(),
        Err(ScriptError::Runtime(m)) => m@,
    }
}

/// The reply to a script run: its output entries joined by `|`, or the
/// fixed message of a resource limit, or the error's text.
pub fn script_reply(result: Result<Vec<String>, ScriptError>) -> (r: String)
    ensures
        r@ == finished(outcome_text(result)),
{
    match result {
        Ok(out) => {
            let joined = join(&out, "|");
            finish(joined.as_str())
        },
        Err(ScriptError::Memory) => finish("memory error: Factoid used over 1 MiB of ram"),
        Err(ScriptError::Timeout) => finish("Factoid timed out after 30 seconds"),
        Err(ScriptError::Runtime(m)) => finish(m.as_str()),
    }
}

} // verus!
