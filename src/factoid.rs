//! The factoid handler: named, versioned snippets of text or script.

pub mod database;
pub mod error;
pub mod script;
pub mod utils;

use vstd::prelude::*;

use self::database::{
    count_named, has_key, is_key, key_index, keys_unique, lemma_max_idx, max_idx,
    Database, FactoidRecord, NewFactoid,
};
use self::error::{fails_with, ErrorKind, FactoidError};
use self::script::{finish, finished, invocation, nonempty_of, ScriptInvocation};
use crate::clock::{utc_datetime, utc_text};
use crate::plugin::{Event, EventKind, PluginCommand, PluginName};
use crate::text::{
    byte_prefix, decimal, decimal_text, i32_text_value, join, join_with, one_line, parse_i32,
    split_on_spaces, split_spaces, text_eq, to_one_line, truncate_bytes, views_of,
};
use crate::utils::DownloadError;

verus! {

/// The longest answer to `get` after the name, in bytes.
pub const GET_LIMIT: usize = 512;

/// The factoid handler over its store.
pub struct Factoid<T> {
    pub factoids: T,
}

impl<T> PluginName for Factoid<T> {
    open spec fn name_spec(&self) -> Option<Seq<char>> {
        Some("Factoid"@)
    }

    fn name(&self) -> (r: &str) {
        "Factoid"
    }
}

/// What invoking a factoid comes to.
#[derive(Clone, Debug)]
pub enum Content {
    /// A reply, ready to be sent.
    Reply(String),
    /// A script to run in the sandbox; `script_reply` makes the reply.
    Script(ScriptInvocation),
}

/// The subcommands of the handler.
#[derive(Clone, Copy, Debug, PartialEq, Eq, Structural)]
pub enum SubCommand {
    Add,
    FromUrl,
    Remove,
    Get,
    Info,
    Exec,
    Help,
}

pub open spec fn sub_command_of(word: Seq<char>) -> Option<SubCommand> {
    if word == "add"@ {
        Some(SubCommand::Add)
    } else if word == "fromurl"@ {
        Some(SubCommand::FromUrl)
    } else if word == "remove"@ {
        Some(SubCommand::Remove)
    } else if word == "get"@ {
        Some(SubCommand::Get)
    } else if word == "info"@ {
        Some(SubCommand::Info)
    } else if word == "exec"@ {
        Some(SubCommand::Exec)
    } else if word == "help"@ {
        Some(SubCommand::Help)
    } else {
        None
    }
}

impl SubCommand {
    /// The subcommand that `word` names.
    pub fn from_word(word: &str) -> (r: Option<SubCommand>)
        ensures
            r == sub_command_of(word@),
    {
        if text_eq(word, "add") {
            Some(SubCommand::Add)
        } else if text_eq(word, "fromurl") {
            Some(SubCommand::FromUrl)
        } else if text_eq(word, "remove") {
            Some(SubCommand::Remove)
        } else if text_eq(word, "get") {
            Some(SubCommand::Get)
        } else if text_eq(word, "info") {
            Some(SubCommand::Info)
        } else if text_eq(word, "exec") {
            Some(SubCommand::Exec)
        } else if text_eq(word, "help") {
            Some(SubCommand::Help)
        } else {
            None
        }
    }
}

/// The record that adding `content` under `name` stores: its version is
/// the number of versions stored before.
pub open spec fn added_record(
    records: Seq<FactoidRecord>,
    name: Seq<char>,
    content: Seq<char>,
    author: Seq<char>,
    created: int,
) -> FactoidRecord {
    FactoidRecord {
        name,
        idx: count_named(records, name) as int,
        content,
        author,
        created,
    }
}

/// The newest version of `name`: the highest index stored under it.
pub open spec fn latest_idx(records: Seq<FactoidRecord>, name: Seq<char>) -> Option<int> {
    max_idx(records, name)
}

/// The record stored under (`name`, `idx`).
pub open spec fn record_at(records: Seq<FactoidRecord>, name: Seq<char>, idx: int) -> FactoidRecord {
    records[key_index(records, name, idx)]
}

/// The version that `tokens` asks `get` or `info` for: the newest one
/// when only a name is given, else the index written after it.
pub open spec fn requested_version(records: Seq<FactoidRecord>, tokens: Seq<Seq<char>>) -> Option<
    (Seq<char>, int),
> {
    if tokens.len() == 1 {
        match latest_idx(records, tokens[0]) {
            Some(i) => Some((tokens[0], i)),
            None => None,
        }
    } else if tokens.len() >= 2 {
        match i32_text_value(tokens[1]) {
            Some(i) => Some((tokens[0], i)),
            None => None,
        }
    } else {
        None
    }
}

/// The answer to `get`.
pub open spec fn get_text(name: Seq<char>, content: Seq<char>) -> Seq<char> {
    name + ": "@ + byte_prefix(one_line(content), GET_LIMIT as int)
}

/// The answer to `info` with only a name.
pub open spec fn versions_text(count: nat, name: Seq<char>) -> Seq<char> {
    if count == 1 {
        "There is 1 version of "@ + name
    } else {
        "There are "@ + decimal(count) + " versions of "@ + name
    }
}

/// The answer to `info` with a name and a version.
pub open spec fn added_text(name: Seq<char>, author: Seq<char>, when: Seq<char>) -> Seq<char> {
    name + ": Added by "@ + author + " at "@ + when + " UTC"@
}

/// A factoid marked as a script: one `>` in front, not two.
pub open spec fn is_script(c: Seq<char>) -> bool {
    c.len() > 0 && c[0] == '>' && !(c.len() > 1 && c[1] == '>')
}

/// The text a factoid that is no script replies: its content, without
/// the first `>` of a literal.
pub open spec fn literal_text(c: Seq<char>) -> Seq<char> {
    if c.len() > 0 && c[0] == '>' {
        c.drop_first()
    } else {
        c
    }
}

/// What invoking the factoid `name`, whose content is `c`, for `source`
/// in `target` with the arguments `args` comes to.
pub open spec fn content_matches(
    x: Content,
    name: Seq<char>,
    c: Seq<char>,
    source: Seq<char>,
    target: Seq<char>,
    args: Seq<Seq<char>>,
) -> bool {
    match x {
        Content::Reply(s) => !is_script(c) && s@ == finished(literal_text(c)),
        Content::Script(inv) => {
            &&& is_script(c)
            &&& inv.name@ == name
            &&& inv.code@ == c.drop_first()
            &&& views_of(inv.args@) == nonempty_of(args)
            &&& inv.input@ == join_with(args, " "@)
            &&& inv.user@ == source
            &&& inv.channel@ == target
        },
    }
}

/// A message that asks for a factoid: it starts with `!`.
pub open spec fn is_bang(event: Event) -> bool {
    event.kind == EventKind::Message && event.text@.len() > 0 && event.text@[0] == '!'
}

/// Whether `event` asks for a factoid, which is then run in a background
/// task.
pub fn wants_thread(event: &Event) -> (r: bool)
    ensures
        r == is_bang(*event),
{
    match event.kind {
        EventKind::Message => {
            let s = event.text.as_str();
            s.unicode_len() > 0 && s.get_char(0) == '!'
        },
        _ => false,
    }
}

/// The command a `!` message stands for: the text after the `!`, split on
/// single spaces.
pub fn bang_command(event: &Event) -> (r: Option<PluginCommand>)
    ensures
        r is Some <==> is_bang(*event),
        r matches Some(c) ==> {
            &&& c.source@ == event.source@
            &&& c.target@ == event.reply_target@
            &&& views_of(c.tokens@) == split_spaces(event.text@.drop_first())
        },
{
    if !wants_thread(event) {
        return None;
    }
    let s = event.text.as_str();
    let n = s.unicode_len();
    let rest = s.substring_char(1, n);
    assert(rest@ =~= event.text@.drop_first());
    Some(
        PluginCommand {
            source: event.source.clone(),
            target: event.reply_target.clone(),
            tokens: split_on_spaces(rest),
        },
    )
}

/// The handler's usage text.
pub fn help() -> (r: &'static str)
    ensures
        r@ == "usage: factoids <subcommand>\r\nsubcommands: add, fromurl, remove, get, info, exec, help"@,
{
    "usage: factoids <subcommand>\r\nsubcommands: add, fromurl, remove, get, info, exec, help"
}

/// What invoking the factoid `name`, whose content is `content`, comes to
/// for `command`: a script for content marked with one `>`, else the
/// text (without the first `>` of a literal), finished for sending.
pub fn content_of(name: &str, content: &str, command: &PluginCommand) -> (r: Content)
    ensures
        content_matches(
            r,
            name@,
            content@,
            command.source@,
            command.target@,
            views_of(command.tokens@),
        ),
{
    let len = content.unicode_len();
    if len > 0 && content.get_char(0) == '>' {
        let rest = content.substring_char(1, len);
        assert(rest@ =~= content@.drop_first());
        if len > 1 && content.get_char(1) == '>' {
            Content::Reply(finish(rest))
        } else {
            Content::Script(invocation(name, rest, command))
        }
    } else {
        Content::Reply(finish(content))
    }
}

impl<T: Database> Factoid<T> {
    /// A handler over `db`.
    pub fn new(db: T) -> (r: Self)
        ensures
            r.factoids == db,
    {
        Factoid { factoids: db }
    }

    /// Stores `content` under `name` as its next version.
    pub fn create_factoid(&mut self, name: &str, content: &str, author: &str, created: i64) -> (r:
        Result<&'static str, FactoidError>)
        ensures
            r matches Ok(m) ==> m@ == "Successfully added!"@ && final(self).factoids.records()
                == old(self).factoids.records().push(
                added_record(old(self).factoids.records(), name@, content@, author@, created as int),
            ),
            r is Err ==> final(self).factoids.records() == old(self).factoids.records(),
            final(self).factoids.answers() == old(self).factoids.answers(),
            old(self).factoids.answers() && !has_key(
                old(self).factoids.records(),
                name@,
                count_named(old(self).factoids.records(), name@) as int,
            ) && old(self).factoids.records().len() < i32::MAX ==> r is Ok,
    {
        let count = match self.factoids.count_factoids(name) {
            Ok(c) => c,
            Err(e) => {
                return Err(e);
            },
        };
        let factoid = NewFactoid { name, idx: count, content, author, created };
        match self.factoids.insert_factoid(&factoid) {
            Ok(()) => Ok("Successfully added!"),
            Err(e) => Err(e),
        }
    }

    /// `add <name> <content...>`: stores the rest of the tokens, joined
    /// by spaces, as the next version of `name`, authored by the sender.
    /// The name is taken off the tokens.
    pub fn add(&mut self, command: &mut PluginCommand, created: i64) -> (r: Result<
        &'static str,
        FactoidError,
    >)
        ensures
            old(command).tokens@.len() < 2 ==> fails_with(r, ErrorKind::InvalidCommand)
                && *final(command) == *old(command) && final(self).factoids.records() == old(
                self,
            ).factoids.records(),
            old(command).tokens@.len() >= 2 ==> {
                &&& final(command).source == old(command).source
                &&& final(command).target == old(command).target
                &&& views_of(final(command).tokens@) == views_of(old(command).tokens@).drop_first()
            },
            r matches Ok(m) ==> m@ == "Successfully added!"@ && final(self).factoids.records()
                == old(self).factoids.records().push(
                added_record(
                    old(self).factoids.records(),
                    old(command).tokens@[0]@,
                    join_with(views_of(old(command).tokens@).drop_first(), " "@),
                    old(command).source@,
                    created as int,
                ),
            ),
            r is Err ==> final(self).factoids.records() == old(self).factoids.records(),
            final(self).factoids.answers() == old(self).factoids.answers(),
            old(command).tokens@.len() >= 2 && old(self).factoids.answers() && !has_key(
                old(self).factoids.records(),
                old(command).tokens@[0]@,
                count_named(old(self).factoids.records(), old(command).tokens@[0]@) as int,
            ) && old(self).factoids.records().len() < i32::MAX ==> r is Ok,
    {
        if command.tokens.len() < 2 {
            return Err(FactoidError::new(ErrorKind::InvalidCommand));
        }
        let ghost before = command.tokens@;
        let name = command.tokens.remove(0);
        proof {
            assert(views_of(command.tokens@) =~= views_of(before).drop_first());
        }
        let content = join(&command.tokens, " ");
        self.create_factoid(name.as_str(), content.as_str(), command.source.as_str(), created)
    }

    /// The address that `fromurl <name> <url>` downloads.
    pub fn url_of(command: &PluginCommand) -> (r: Result<String, FactoidError>)
        ensures
            command.tokens@.len() < 2 ==> fails_with(r, ErrorKind::InvalidCommand),
            command.tokens@.len() >= 2 ==> (r matches Ok(u) && u@ == command.tokens@[1]@),
    {
        if command.tokens.len() < 2 {
            return Err(FactoidError::new(ErrorKind::InvalidCommand));
        }
        Ok(command.tokens[1].clone())
    }

    /// `fromurl <name> <url>`: stores what was downloaded from the address
    /// (`fetched`) as the next version of `name`. The name is taken off the
    /// tokens.
    pub fn add_from_url(
        &mut self,
        command: &mut PluginCommand,
        fetched: Result<String, DownloadError>,
        created: i64,
    ) -> (r: Result<&'static str, FactoidError>)
        ensures
            old(command).tokens@.len() < 2 ==> fails_with(r, ErrorKind::InvalidCommand)
                && *final(command) == *old(command),
            old(command).tokens@.len() >= 2 ==> {
                &&& final(command).source == old(command).source
                &&& final(command).target == old(command).target
                &&& views_of(final(command).tokens@) == views_of(old(command).tokens@).drop_first()
            },
            old(command).tokens@.len() >= 2 && fetched is Err ==> fails_with(r, ErrorKind::Download),
            r matches Ok(m) ==> m@ == "Successfully added!"@ && (fetched matches Ok(body)
                && final(self).factoids.records() == old(self).factoids.records().push(
                added_record(
                    old(self).factoids.records(),
                    old(command).tokens@[0]@,
                    body@,
                    old(command).source@,
                    created as int,
                ),
            )),
            r is Err ==> final(self).factoids.records() == old(self).factoids.records(),
            final(self).factoids.answers() == old(self).factoids.answers(),
            old(command).tokens@.len() >= 2 && fetched is Ok && old(self).factoids.answers()
                && !has_key(
                old(self).factoids.records(),
                old(command).tokens@[0]@,
                count_named(old(self).factoids.records(), old(command).tokens@[0]@) as int,
            ) && old(self).factoids.records().len() < i32::MAX ==> r is Ok,
    {
        if command.tokens.len() < 2 {
            return Err(FactoidError::new(ErrorKind::InvalidCommand));
        }
        let ghost before = command.tokens@;
        let name = command.tokens.remove(0);
        proof {
            assert(views_of(command.tokens@) =~= views_of(before).drop_first());
        }
        match fetched {
            Ok(content) => self.create_factoid(
                name.as_str(),
                content.as_str(),
                command.source.as_str(),
                created,
            ),
            Err(_) => Err(FactoidError::new(ErrorKind::Download)),
        }
    }

    /// `remove <name>`: deletes the newest version of `name`, the one under
    /// its highest index. The name is taken off the tokens.
    pub fn remove(&mut self, command: &mut PluginCommand) -> (r: Result<&'static str, FactoidError>)
        ensures
            old(command).tokens@.len() == 0 ==> fails_with(r, ErrorKind::InvalidCommand)
                && *final(command) == *old(command),
            old(command).tokens@.len() > 0 ==> {
                &&& final(command).source == old(command).source
                &&& final(command).target == old(command).target
                &&& views_of(final(command).tokens@) == views_of(old(command).tokens@).drop_first()
            },
            r matches Ok(m) ==> {
                let recs = old(self).factoids.records();
                let name = old(command).tokens@[0]@;
                &&& m@ == "Successfully removed"@
                &&& latest_idx(recs, name) matches Some(i)
                &&& has_key(recs, name, i)
                &&& final(self).factoids.records() == recs.remove(key_index(recs, name, i))
            },
            old(command).tokens@.len() > 0 && latest_idx(
                old(self).factoids.records(),
                old(command).tokens@[0]@,
            ) is None ==> r is Err,
            r is Err ==> final(self).factoids.records() == old(self).factoids.records(),
            final(self).factoids.answers() == old(self).factoids.answers(),
            old(command).tokens@.len() > 0 && old(self).factoids.answers() ==> (r is Ok <==> latest_idx(
                old(self).factoids.records(),
                old(command).tokens@[0]@,
            ) is Some),
            old(command).tokens@.len() > 0 && old(self).factoids.answers() && latest_idx(
                old(self).factoids.records(),
                old(command).tokens@[0]@,
            ) is None ==> fails_with(r, ErrorKind::NotFound),
    {
        if command.tokens.len() == 0 {
            return Err(FactoidError::new(ErrorKind::InvalidCommand));
        }
        let ghost before = command.tokens@;
        let name = command.tokens.remove(0);
        proof {
            assert(views_of(command.tokens@) =~= views_of(before).drop_first());
            lemma_max_idx(self.factoids.records(), name@);
        }
        let latest = match self.factoids.latest_version(name.as_str()) {
            Ok(v) => v,
            Err(e) => {
                return Err(e);
            },
        };
        match latest {
            Some(idx) => match self.factoids.delete_factoid(name.as_str(), idx) {
                Ok(()) => Ok("Successfully removed"),
                Err(e) => Err(e),
            },
            None => Err(FactoidError::new(ErrorKind::NotFound)),
        }
    }

    /// `get <name> [index]`: the content of a version of `name`, the newest
    /// one when no index is given, on one line.
    pub fn get(&self, command: &PluginCommand) -> (r: Result<String, FactoidError>)
        ensures
            command.tokens@.len() == 0 ==> fails_with(r, ErrorKind::InvalidCommand),
            command.tokens@.len() >= 2 && i32_text_value(command.tokens@[1]@) is None ==> fails_with(
                r,
                ErrorKind::InvalidCommand,
            ),
            r matches Ok(m) ==> {
                let recs = self.factoids.records();
                match requested_version(recs, views_of(command.tokens@)) {
                    Some((name, idx)) => has_key(recs, name, idx) && m@ == get_text(
                        name,
                        record_at(recs, name, idx).content,
                    ),
                    None => false,
                }
            },
            (requested_version(self.factoids.records(), views_of(command.tokens@)) matches Some(
                (name, idx),
            ) && !has_key(self.factoids.records(), name, idx)) ==> r is Err,
            command.tokens@.len() >= 2 && (requested_version(
                self.factoids.records(),
                views_of(command.tokens@),
            ) matches Some((name, idx)) && !has_key(self.factoids.records(), name, idx))
                ==> fails_with(r, ErrorKind::NotFound),
            self.factoids.answers() && (requested_version(
                self.factoids.records(),
                views_of(command.tokens@),
            ) matches Some((name, idx)) && !has_key(self.factoids.records(), name, idx))
                ==> fails_with(r, ErrorKind::NotFound),
            self.factoids.answers() && (requested_version(
                self.factoids.records(),
                views_of(command.tokens@),
            ) matches Some((name, idx)) && has_key(self.factoids.records(), name, idx)) ==> r is Ok,
            command.tokens@.len() == 1 && latest_idx(self.factoids.records(), command.tokens@[0]@)
                is None ==> r is Err,
            command.tokens@.len() == 1 && self.factoids.answers() && latest_idx(
                self.factoids.records(),
                command.tokens@[0]@,
            ) is None ==> fails_with(r, ErrorKind::NotFound),
    {
        let n = command.tokens.len();
        if n == 0 {
            return Err(FactoidError::new(ErrorKind::InvalidCommand));
        }
        proof {
            assert(views_of(command.tokens@)[0] == command.tokens@[0]@);
            if n >= 2 {
                assert(views_of(command.tokens@)[1] == command.tokens@[1]@);
            }
        }
        let name = command.tokens[0].as_str();
        let idx: i32 = if n == 1 {
            proof {
                lemma_max_idx(self.factoids.records(), name@);
            }
            match self.factoids.latest_version(name) {
                Ok(Some(i)) => i,
                Ok(None) => {
                    return Err(FactoidError::new(ErrorKind::NotFound));
                },
                Err(e) => {
                    return Err(e);
                },
            }
        } else {
            match parse_i32(command.tokens[1].as_str()) {
                Some(i) => i,
                None => {
                    return Err(FactoidError::new(ErrorKind::InvalidCommand));
                },
            }
        };
        let factoid = match self.factoids.get_factoid(name, idx) {
            Ok(f) => f,
            Err(_) => {
                return Err(FactoidError::new(ErrorKind::NotFound));
            },
        };
        let line = to_one_line(factoid.content.as_str());
        let cut = truncate_bytes(line.as_str(), GET_LIMIT);
        let mut m = factoid.name.clone();
        m.append(": ");
        m.append(cut.as_str());
        Ok(m)
    }

    /// `info <name> [index]`: how many versions `name` has, or who added a
    /// version and when.
    pub fn info(&self, command: &PluginCommand) -> (r: Result<String, FactoidError>)
        ensures
            command.tokens@.len() == 0 ==> fails_with(r, ErrorKind::InvalidCommand),
            command.tokens@.len() >= 2 && i32_text_value(command.tokens@[1]@) is None ==> fails_with(
                r,
                ErrorKind::InvalidIndex,
            ),
            command.tokens@.len() == 1 && count_named(self.factoids.records(), command.tokens@[0]@)
                == 0 ==> r is Err,
            command.tokens@.len() >= 2 && (requested_version(
                self.factoids.records(),
                views_of(command.tokens@),
            ) matches Some((name, idx)) && !has_key(self.factoids.records(), name, idx)) ==> r is Err,
            r matches Ok(m) ==> {
                let recs = self.factoids.records();
                let name = command.tokens@[0]@;
                if command.tokens@.len() == 1 {
                    count_named(recs, name) > 0 && m@ == versions_text(count_named(recs, name), name)
                } else {
                    match i32_text_value(command.tokens@[1]@) {
                        Some(idx) => {
                            let rec = record_at(recs, name, idx);
                            &&& has_key(recs, name, idx)
                            &&& (m@ == added_text(name, rec.author, utc_text(rec.created)) || m@
                                == added_text(name, rec.author, "an unknown time"@))
                        },
                        None => false,
                    }
                }
            },
            command.tokens@.len() == 1 && self.factoids.answers() ==> (r is Ok <==> count_named(
                self.factoids.records(),
                command.tokens@[0]@,
            ) > 0),
            command.tokens@.len() == 1 && self.factoids.answers() && count_named(
                self.factoids.records(),
                command.tokens@[0]@,
            ) == 0 ==> fails_with(r, ErrorKind::NotFound),
            command.tokens@.len() >= 2 && self.factoids.answers() && (requested_version(
                self.factoids.records(),
                views_of(command.tokens@),
            ) matches Some((name, idx)) && has_key(self.factoids.records(), name, idx)) ==> r is Ok,
            command.tokens@.len() >= 2 && self.factoids.answers() && (requested_version(
                self.factoids.records(),
                views_of(command.tokens@),
            ) matches Some((name, idx)) && !has_key(self.factoids.records(), name, idx))
                ==> fails_with(r, ErrorKind::NotFound),
    {
        let n = command.tokens.len();
        if n == 0 {
            return Err(FactoidError::new(ErrorKind::InvalidCommand));
        }
        proof {
            assert(views_of(command.tokens@)[0] == command.tokens@[0]@);
            if n >= 2 {
                assert(views_of(command.tokens@)[1] == command.tokens@[1]@);
            }
        }
        let name = command.tokens[0].as_str();
        if n == 1 {
            let count = match self.factoids.count_factoids(name) {
                Ok(c) => c,
                Err(e) => {
                    return Err(e);
                },
            };
            if count == 0 {
                return Err(FactoidError::new(ErrorKind::NotFound));
            }
            if count == 1 {
                let mut m = String::from_str("There is 1 version of ");
                m.append(name);
                return Ok(m);
            }
            let mut m = String::from_str("There are ");
            let digits = decimal_text(count as u64);
            m.append(digits.as_str());
            m.append(" versions of ");
            m.append(name);
            return Ok(m);
        }
        let idx = match parse_i32(command.tokens[1].as_str()) {
            Some(i) => i,
            None => {
                return Err(FactoidError::new(ErrorKind::InvalidIndex));
            },
        };
        let factoid = match self.factoids.get_factoid(name, idx) {
            Ok(f) => f,
            Err(e) => {
                return Err(e);
            },
        };
        let mut m = String::from_str(name);
        m.append(": Added by ");
        m.append(factoid.author.as_str());
        m.append(" at ");
        match utc_datetime(factoid.created) {
            Some(t) => m.append(t.as_str()),
            None => m.append("an unknown time"),
        }
        m.append(" UTC");
        Ok(m)
    }

    /// Invokes the newest version of the factoid named by the first token,
    /// with the rest of the tokens as its arguments: a reply for text, a
    /// run of the sandbox for a script.
    pub fn exec(&self, command: PluginCommand) -> (r: Result<Content, FactoidError>)
        ensures
            command.tokens@.len() == 0 ==> fails_with(r, ErrorKind::InvalidIndex),
            command.tokens@.len() > 0 && latest_idx(self.factoids.records(), command.tokens@[0]@)
                is None ==> r is Err,
            command.tokens@.len() > 0 && self.factoids.answers() && latest_idx(
                self.factoids.records(),
                command.tokens@[0]@,
            ) is None ==> fails_with(r, ErrorKind::NotFound),
            r matches Ok(x) ==> {
                let recs = self.factoids.records();
                let name = command.tokens@[0]@;
                &&& command.tokens@.len() > 0
                &&& latest_idx(recs, name) matches Some(i)
                &&& has_key(recs, name, i)
                &&& content_matches(
                    x,
                    name,
                    record_at(recs, name, i).content,
                    command.source@,
                    command.target@,
                    views_of(command.tokens@).drop_first(),
                )
            },
            command.tokens@.len() > 0 && self.factoids.answers() && latest_idx(
                self.factoids.records(),
                command.tokens@[0]@,
            ) is Some ==> r is Ok,
    {
        let mut command = command;
        if command.tokens.len() == 0 {
            return Err(FactoidError::new(ErrorKind::InvalidIndex));
        }
        let ghost before = command.tokens@;
        let name = command.tokens.remove(0);
        proof {
            assert(views_of(command.tokens@) =~= views_of(before).drop_first());
            lemma_max_idx(self.factoids.records(), name@);
        }
        let idx = match self.factoids.latest_version(name.as_str()) {
            Ok(Some(i)) => i,
            Ok(None) => {
                return Err(FactoidError::new(ErrorKind::NotFound));
            },
            Err(e) => {
                return Err(e);
            },
        };
        let factoid = match self.factoids.get_factoid(name.as_str(), idx) {
            Ok(f) => f,
            Err(e) => {
                return Err(e);
            },
        };
        Ok(content_of(name.as_str(), factoid.content.as_str(), &command))
    }
}

} // verus!

verus! {

/// The versions of `name` are exactly 0 up to its count, each stored
/// once: what adding and removing through the handler keep.
pub open spec fn versions_dense(records: Seq<FactoidRecord>, name: Seq<char>) -> bool {
    &&& keys_unique(records)
    &&& forall|k: int| 0 <= k < count_named(records, name) ==> has_key(records, name, k)
    &&& forall|i: int|
        0 <= i < records.len() && (#[trigger] records[i]).name == name ==> 0 <= records[i].idx
            < count_named(records, name)
}

/// With dense versions, the newest version is the count less one.
pub proof fn lemma_dense_latest(records: Seq<FactoidRecord>, name: Seq<char>)
    requires
        versions_dense(records, name),
    ensures
        count_named(records, name) > 0 ==> latest_idx(records, name) == Some(
            count_named(records, name) - 1,
        ),
        count_named(records, name) == 0 ==> latest_idx(records, name) is None,
{
    lemma_max_idx(records, name);
    let c = count_named(records, name) as int;
    if c > 0 {
        assert(has_key(records, name, c - 1));
        let j = choose|j: int| 0 <= j < records.len() && is_key(#[trigger] records[j], name, c - 1);
        assert(records[j].name == name);
        match max_idx(records, name) {
            Some(m) => {
                let k = choose|k: int| 0 <= k < records.len() && is_key(#[trigger] records[k], name, m);
                assert(records[k].name == name);
                assert(records[j].idx <= m);
            },
            None => {},
        }
    } else {
        assert forall|i: int| 0 <= i < records.len() implies (#[trigger] records[i]).name != name by {
            if records[i].name == name {
                assert(0 <= records[i].idx < c);
            }
        }
    }
}

proof fn lemma_count_push(s: Seq<FactoidRecord>, r: FactoidRecord, name: Seq<char>)
    ensures
        count_named(s.push(r), name) == count_named(s, name) + if r.name == name {
            1nat
        } else {
            0nat
        },
{
    assert(s.push(r).drop_last() =~= s);
}

proof fn lemma_count_remove(s: Seq<FactoidRecord>, i: int, name: Seq<char>)
    requires
        0 <= i < s.len(),
    ensures
        count_named(s.remove(i), name) + (if s[i].name == name {
            1nat
        } else {
            0nat
        }) == count_named(s, name),
    decreases s.len(),
{
    if i == s.len() - 1 {
        assert(s.remove(i) =~= s.drop_last());
    } else {
        let t = s.drop_last();
        lemma_count_remove(t, i, name);
        assert(s.remove(i) =~= t.remove(i).push(s.last()));
        lemma_count_push(t.remove(i), s.last(), name);
    }
}

/// Adding to a name stores the version after its newest, which becomes
/// the newest; the versions stay dense.
pub proof fn lemma_add_is_newest(
    records: Seq<FactoidRecord>,
    name: Seq<char>,
    content: Seq<char>,
    author: Seq<char>,
    created: int,
)
    requires
        versions_dense(records, name),
    ensures
        ({
            let added = added_record(records, name, content, author, created);
            let after = records.push(added);
            &&& added.idx == count_named(records, name)
            &&& (latest_idx(records, name) matches Some(m) ==> added.idx == m + 1)
            &&& !has_key(records, name, added.idx)
            &&& latest_idx(after, name) == Some(added.idx)
            &&& has_key(after, name, added.idx)
            &&& record_at(after, name, added.idx) == added
            &&& versions_dense(after, name)
        }),
{
    let added = added_record(records, name, content, author, created);
    let after = records.push(added);
    let n = records.len();
    lemma_count_push(records, added, name);
    lemma_dense_latest(records, name);
    assert(is_key(after[n as int], name, added.idx));
    assert(!has_key(records, name, added.idx)) by {
        if has_key(records, name, added.idx) {
            let j = choose|j: int| 0 <= j < records.len() && is_key(#[trigger] records[j], name, added.idx);
            assert(records[j].name == name);
        }
    }
    let k = key_index(after, name, added.idx);
    assert(0 <= k < after.len() && is_key(after[k], name, added.idx));
    if k != n {
        assert(after[k] == records[k]);
    }
    assert forall|a: int, b: int| 0 <= a < b < after.len() implies !is_key(
        #[trigger] after[a],
        after[b].name,
        #[trigger] after[b].idx,
    ) by {
        if b == n {
            assert(after[a] == records[a]);
            if after[a].name == name {
                assert(records[a].name == name);
            }
        } else {
            assert(after[a] == records[a] && after[b] == records[b]);
        }
    }
    assert forall|kk: int| 0 <= kk < count_named(after, name) implies has_key(after, name, kk) by {
        if kk < count_named(records, name) {
            assert(has_key(records, name, kk));
            let j = choose|j: int| 0 <= j < records.len() && is_key(#[trigger] records[j], name, kk);
            assert(after[j] == records[j]);
        }
    }
    assert forall|i: int|
        0 <= i < after.len() && (#[trigger] after[i]).name == name implies 0 <= after[i].idx
        < count_named(after, name) by {
        if i < n {
            assert(after[i] == records[i]);
        }
    }
    lemma_dense_latest(after, name);
}

/// Removing the newest version of a name makes the version before it
/// the newest, with its record unchanged; the versions stay dense.
pub proof fn lemma_remove_newest(records: Seq<FactoidRecord>, name: Seq<char>)
    requires
        versions_dense(records, name),
        count_named(records, name) > 0,
    ensures
        ({
            let newest = count_named(records, name) - 1;
            let after = records.remove(key_index(records, name, newest));
            &&& latest_idx(records, name) == Some(newest)
            &&& has_key(records, name, newest)
            &&& latest_idx(after, name) == (if newest >= 1 {
                Some(newest - 1)
            } else {
                None
            })
            &&& versions_dense(after, name)
            &&& newest >= 1 ==> has_key(after, name, newest - 1) && record_at(after, name, newest - 1)
                == record_at(records, name, newest - 1)
        }),
{
    let newest = count_named(records, name) - 1;
    lemma_dense_latest(records, name);
    assert(has_key(records, name, newest));
    let r = key_index(records, name, newest);
    assert(0 <= r < records.len() && is_key(records[r], name, newest));
    let after = records.remove(r);
    lemma_count_remove(records, r, name);
    assert forall|i: int| 0 <= i < after.len() implies #[trigger] after[i] == records[if i < r {
        i
    } else {
        i + 1
    }] by {}
    assert forall|a: int, b: int| 0 <= a < b < after.len() implies !is_key(
        #[trigger] after[a],
        after[b].name,
        #[trigger] after[b].idx,
    ) by {
        let a2 = if a < r { a } else { a + 1 };
        let b2 = if b < r { b } else { b + 1 };
        assert(after[a] == records[a2] && after[b] == records[b2]);
        assert(!is_key(records[a2], records[b2].name, records[b2].idx));
    }
    assert forall|i: int|
        0 <= i < after.len() && (#[trigger] after[i]).name == name implies 0 <= after[i].idx
        < count_named(after, name) by {
        let i2 = if i < r { i } else { i + 1 };
        assert(after[i] == records[i2]);
        assert(records[i2].name == name);
        assert(i2 != r);
        if records[i2].idx == newest {
            if i2 < r {
                assert(!is_key(records[i2], records[r].name, records[r].idx));
            } else {
                assert(!is_key(records[r], records[i2].name, records[i2].idx));
            }
        }
    }
    assert forall|kk: int| 0 <= kk < count_named(after, name) implies has_key(after, name, kk) by {
        assert(has_key(records, name, kk));
        let j = choose|j: int| 0 <= j < records.len() && is_key(#[trigger] records[j], name, kk);
        assert(j != r);
        let j2 = if j < r { j } else { j - 1 };
        assert(after[j2] == records[j]);
    }
    if newest >= 1 {
        let k = newest - 1;
        assert(has_key(after, name, k));
        let ka = key_index(after, name, k);
        assert(0 <= ka < after.len() && is_key(after[ka], name, k));
        let kr = key_index(records, name, k);
        assert(has_key(records, name, k));
        assert(0 <= kr < records.len() && is_key(records[kr], name, k));
        let ka2 = if ka < r { ka } else { ka + 1 };
        assert(after[ka] == records[ka2]);
        if ka2 != kr {
            if ka2 < kr {
                assert(!is_key(records[ka2], records[kr].name, records[kr].idx));
            } else {
                assert(!is_key(records[kr], records[ka2].name, records[ka2].idx));
            }
        }
    }
    lemma_dense_latest(after, name);
}

} // verus!
