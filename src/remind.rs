//! The reminder handler: requests, their storage and their delivery.

pub mod database;
pub mod error;
pub mod parser;
pub mod schedule;

use vstd::prelude::*;

use self::database::{
    any_selected, eq_ignore_ascii_case, has_id, id_index, least_free, lemma_selected_some,
    record_of, repeat_view, selects, same_ignoring_ascii_case, Database, Event, EventRecord,
    NewEvent,
};
use self::error::{fails_with, ErrorKind, RemindError};
use self::parser::{get_repeat_spec, get_time_spec, parse_spec, CommandParser, ParserView};
use crate::clock::{utc_datetime, utc_text};
use crate::plugin::{PluginCommand, PluginName};
use crate::text::{decimal, decimal_text, i64_text_value, join_with, parse_i64, text_eq, views_of};

verus! {

/// The shortest time until a reminder, in seconds.
pub const MIN_TIME_SECS: u64 = 120;

/// The shortest repeat interval, in seconds.
pub const MIN_REPEAT_SECS: u64 = 300;

/// `n` in decimal, with a `-` in front when it is negative.
pub open spec fn signed_decimal(n: int) -> Seq<char> {
    if n < 0 {
        "-"@ + decimal((-n) as nat)
    } else {
        decimal(n as nat)
    }
}

/// Writes `n` in decimal.
pub fn signed_decimal_text(n: i64) -> (r: String)
    ensures
        r@ == signed_decimal(n as int),
{
    if n < 0 {
        let mut s = String::from_str("-");
        let digits = decimal_text((0 - (n as i128)) as u64);
        s.append(digits.as_str());
        s
    } else {
        decimal_text(n as u64)
    }
}

/// How an instant is shown: chrono's text for it, or a placeholder where
/// chrono has none.
pub open spec fn shows_time(t: Seq<char>, secs: int) -> bool {
    t == utc_text(secs) || t == "an unknown time"@
}

fn time_text(secs: i64) -> (r: String)
    ensures
        shows_time(r@, secs as int),
{
    match utc_datetime(secs) {
        Some(t) => t,
        None => String::from_str("an unknown time"),
    }
}

/// The line that lists a reminder, its time shown as `when`.
pub open spec fn event_line(e: EventRecord, when: Seq<char>) -> Seq<char> {
    signed_decimal(e.id) + ": "@ + e.author + " reminds "@ + e.receiver + " to \""@ + e.content
        + "\" at "@ + when
}

/// The lines that list the reminders `v`, their times shown as `whens`.
pub open spec fn event_lines(v: Seq<EventRecord>, whens: Seq<Seq<char>>) -> Seq<Seq<char>> {
    Seq::new(whens.len(), |i: int| event_line(v[i], whens[i]))
}

/// The subcommands of the reminder handler.
#[derive(Clone, Copy, Debug, PartialEq, Eq, Structural)]
pub enum RemindCommand {
    User,
    Me,
    Delete,
    List,
    Help,
}

pub open spec fn remind_command_of(word: Seq<char>) -> Option<RemindCommand> {
    if word == "user"@ {
        Some(RemindCommand::User)
    } else if word == "me"@ {
        Some(RemindCommand::Me)
    } else if word == "delete"@ {
        Some(RemindCommand::Delete)
    } else if word == "list"@ {
        Some(RemindCommand::List)
    } else if word == "help"@ {
        Some(RemindCommand::Help)
    } else {
        None
    }
}

impl RemindCommand {
    /// The subcommand that `word` names.
    pub fn from_word(word: &str) -> (r: Option<RemindCommand>)
        ensures
            r == remind_command_of(word@),
    {
        if text_eq(word, "user") {
            Some(RemindCommand::User)
        } else if text_eq(word, "me") {
            Some(RemindCommand::Me)
        } else if text_eq(word, "delete") {
            Some(RemindCommand::Delete)
        } else if text_eq(word, "list") {
            Some(RemindCommand::List)
        } else if text_eq(word, "help") {
            Some(RemindCommand::Help)
        } else {
            None
        }
    }
}

/// The handler's usage text.
pub fn help() -> (r: &'static str)
    ensures
        r@ == "usage: remind <subcommand>\r\nsubcommands: user, me, list, delete, help\r\nexamples\r\nremind user foo to sleep in 1 hour\r\nremind me to leave early on 1.1 at 16:00 every week"@,
{
    "usage: remind <subcommand>\r\nsubcommands: user, me, list, delete, help\r\nexamples\r\nremind user foo to sleep in 1 hour\r\nremind me to leave early on 1.1 at 16:00 every week"
}

/// The record that a request for `receiver` stores.
pub open spec fn requested_record(
    id: int,
    receiver: Seq<char>,
    content: Seq<char>,
    author: Seq<char>,
    time: int,
    repeat: Option<int>,
) -> EventRecord {
    EventRecord { id, receiver, content, author, time, repeat }
}

/// The reply to a stored request.
pub open spec fn created_text(id: int, when: Seq<char>) -> Seq<char> {
    "Created reminder with id "@ + signed_decimal(id) + " at "@ + when + " UTC"@
}

/// Whether `user` may delete the reminder `e`: its receiver or author.
pub open spec fn may_delete(e: EventRecord, user: Seq<char>) -> bool {
    eq_ignore_ascii_case(e.receiver, user) || eq_ignore_ascii_case(e.author, user)
}

/// A request that parses to `q` and is made at `now` has a valid time
/// and repeat interval.
pub open spec fn request_valid(q: ParserView, now: int) -> bool {
    get_time_spec(q, MIN_TIME_SECS as int, now) is Ok && get_repeat_spec(q, MIN_REPEAT_SECS as int)
        is Ok
}

/// `after` is `before` with the reminder that the request `q`, made by
/// `author` at `now`, asks for; `m` is the reply that names its id, which
/// is the least free one where the store answers.
pub open spec fn stored_request(
    before: Seq<EventRecord>,
    after: Seq<EventRecord>,
    answers: bool,
    q: ParserView,
    author: Seq<char>,
    now: int,
    m: Seq<char>,
) -> bool {
    exists|id: int, when: Seq<char>|
        {
            &&& get_time_spec(q, MIN_TIME_SECS as int, now) matches Ok(t)
            &&& get_repeat_spec(q, MIN_REPEAT_SECS as int) matches Ok(rep)
            &&& !has_id(before, id)
            &&& (answers && before.len() < i64::MAX ==> least_free(before, id))
            &&& after == before.push(
                requested_record(id, q.target, q.message->Some_0, author, t, rep),
            )
            &&& shows_time(when, t)
            &&& m == #[trigger] created_text(id, when)
        }
}

/// `m` lists the reminders `v`, one line each, with their times shown.
pub open spec fn lists(m: Seq<char>, v: Seq<EventRecord>) -> bool {
    &&& v.len() > 0
    &&& exists|whens: Seq<Seq<char>>|
        {
            &&& whens.len() == v.len()
            &&& forall|i: int| 0 <= i < v.len() ==> shows_time(#[trigger] whens[i], v[i].time)
            &&& m == join_with(#[trigger] event_lines(v, whens), "\r\n"@)
        }
}

/// The listing of `events`, one line each; `NotFound` when there are none.
pub fn list_text(events: &Vec<Event>) -> (r: Result<String, RemindError>)
    ensures
        events@.len() == 0 ==> fails_with(r, ErrorKind::NotFound),
        events@.len() > 0 ==> (r matches Ok(m) && lists(m@, database::event_views(events@))),
{
    let n = events.len();
    if n == 0 {
        return Err(RemindError { kind: ErrorKind::NotFound });
    }
    let ghost v = database::event_views(events@);
    let ghost mut whens: Seq<Seq<char>> = Seq::empty();
    let mut list = String::new();
    let mut i: usize = 0;
    while i < n
        invariant
            n == events@.len(),
            v == database::event_views(events@),
            i <= n,
            whens.len() == i,
            forall|k: int| 0 <= k < i ==> shows_time(#[trigger] whens[k], v[k].time),
            list@ == join_with(event_lines(v, whens), "\r\n"@),
        decreases n - i,
    {
        let e = &events[i];
        let when = time_text(e.time);
        let digits = signed_decimal_text(e.id);
        let mut line = digits;
        line.append(": ");
        line.append(e.author.as_str());
        line.append(" reminds ");
        line.append(e.receiver.as_str());
        line.append(" to \"");
        line.append(e.content.as_str());
        line.append("\" at ");
        line.append(when.as_str());
        let ghost old_whens = whens;
        proof {
            whens = whens.push(when@);
            assert(v[i as int] == e@);
            let prev = event_lines(v, old_whens);
            let next = event_lines(v, whens);
            assert(next.drop_last() =~= prev);
            assert(next.last() == line@);
        }
        if i > 0 {
            list.append("\r\n");
        }
        list.append(line.as_str());
        i = i + 1;
    }
    Ok(list)
}

/// The reminder handler over its store.
pub struct Remind<T> {
    pub events: T,
}

impl<T> PluginName for Remind<T> {
    open spec fn name_spec(&self) -> Option<Seq<char>> {
        Some("Remind"@)
    }

    fn name(&self) -> (r: &str) {
        "Remind"
    }
}

impl<T: Database> Remind<T> {
    /// A handler over `db`.
    pub fn new(db: T) -> (r: Self)
        ensures
            r.events == db,
    {
        Remind { events: db }
    }

    /// Stores the request `parser`, made by `author` at `now`.
    pub fn set(&mut self, parser: &CommandParser, author: &str, now: i64) -> (r: Result<
        String,
        RemindError,
    >)
        requires
            parser@.message is Some,
        ensures
            final(self).events.answers() == old(self).events.answers(),
            get_time_spec(parser@, MIN_TIME_SECS as int, now as int) is Err ==> fails_with(
                r,
                get_time_spec(parser@, MIN_TIME_SECS as int, now as int)->Err_0,
            ),
            get_time_spec(parser@, MIN_TIME_SECS as int, now as int) is Ok && get_repeat_spec(
                parser@,
                MIN_REPEAT_SECS as int,
            ) is Err ==> fails_with(r, get_repeat_spec(parser@, MIN_REPEAT_SECS as int)->Err_0),
            r is Err ==> final(self).events.events() == old(self).events.events(),
            r matches Ok(m) ==> stored_request(
                old(self).events.events(),
                final(self).events.events(),
                old(self).events.answers(),
                parser@,
                author@,
                now as int,
                m@,
            ),
            old(self).events.answers() && old(self).events.events().len() < i64::MAX
                && request_valid(parser@, now as int) ==> r is Ok,
    {
        let time = match parser.get_time(MIN_TIME_SECS, now) {
            Ok(t) => t,
            Err(e) => {
                return Err(e);
            },
        };
        let repeat = match parser.get_repeat(MIN_REPEAT_SECS) {
            Ok(r) => r,
            Err(e) => {
                return Err(e);
            },
        };
        let event = NewEvent {
            receiver: parser.get_target(),
            content: parser.get_message(),
            author,
            time,
            repeat,
        };
        let id = match self.events.insert_event(&event) {
            Ok(id) => id,
            Err(e) => {
                return Err(e);
            },
        };
        let mut m = String::from_str("Created reminder with id ");
        let digits = signed_decimal_text(id);
        m.append(digits.as_str());
        m.append(" at ");
        let when = time_text(time);
        m.append(when.as_str());
        m.append(" UTC");
        proof {
            let rep = repeat_view(repeat);
            assert(get_repeat_spec(parser@, MIN_REPEAT_SECS as int) == Ok::<Option<int>, ErrorKind>(
                rep,
            ));
            assert(record_of(event, id as int) == requested_record(
                id as int,
                parser@.target,
                parser@.message->Some_0,
                author@,
                time as int,
                rep,
            ));
            assert(m@ == created_text(id as int, when@));
        }
        Ok(m)
    }

    /// `remind user <receiver> ...`: a reminder for someone else, made by
    /// the sender at `now`.
    pub fn user_cmd(&mut self, command: PluginCommand, now: i64) -> (r: Result<String, RemindError>)
        ensures
            final(self).events.answers() == old(self).events.answers(),
            command.tokens@.len() == 0 ==> fails_with(r, ErrorKind::MissingReceiver),
            command.tokens@.len() > 0 && parse_spec(
                parser::blank_view(command.tokens@[0]@),
                views_of(command.tokens@).drop_first(),
            ) is Err ==> fails_with(
                r,
                parse_spec(
                    parser::blank_view(command.tokens@[0]@),
                    views_of(command.tokens@).drop_first(),
                )->Err_0,
            ),
            r is Err ==> final(self).events.events() == old(self).events.events(),
            r matches Ok(m) ==> command.tokens@.len() > 0 && (parse_spec(
                parser::blank_view(command.tokens@[0]@),
                views_of(command.tokens@).drop_first(),
            ) matches Ok(q) && stored_request(
                old(self).events.events(),
                final(self).events.events(),
                old(self).events.answers(),
                q,
                command.source@,
                now as int,
                m@,
            )),
            command.tokens@.len() > 0 && old(self).events.answers() && old(self).events.events().len()
                < i64::MAX && (parse_spec(
                parser::blank_view(command.tokens@[0]@),
                views_of(command.tokens@).drop_first(),
            ) matches Ok(q) && request_valid(q, now as int)) ==> r is Ok,
    {
        let source = command.source;
        let parser = match CommandParser::parse_target(command.tokens) {
            Ok(p) => p,
            Err(e) => {
                return Err(e);
            },
        };
        self.set(&parser, source.as_str(), now)
    }

    /// `remind me ...`: a reminder for the sender, made at `now`.
    pub fn me_cmd(&mut self, command: PluginCommand, now: i64) -> (r: Result<String, RemindError>)
        ensures
            final(self).events.answers() == old(self).events.answers(),
            parse_spec(parser::blank_view(command.source@), views_of(command.tokens@)) is Err
                ==> fails_with(
                r,
                parse_spec(parser::blank_view(command.source@), views_of(command.tokens@))->Err_0,
            ),
            r is Err ==> final(self).events.events() == old(self).events.events(),
            r matches Ok(m) ==> (parse_spec(
                parser::blank_view(command.source@),
                views_of(command.tokens@),
            ) matches Ok(q) && stored_request(
                old(self).events.events(),
                final(self).events.events(),
                old(self).events.answers(),
                q,
                command.source@,
                now as int,
                m@,
            )),
            old(self).events.answers() && old(self).events.events().len() < i64::MAX && (parse_spec(
                parser::blank_view(command.source@),
                views_of(command.tokens@),
            ) matches Ok(q) && request_valid(q, now as int)) ==> r is Ok,
    {
        let source = command.source.clone();
        let parser = match CommandParser::with_target(command.tokens, command.source) {
            Ok(p) => p,
            Err(e) => {
                return Err(e);
            },
        };
        self.set(&parser, source.as_str(), now)
    }

    /// `remind list`: the reminders for `user`, one per line; `NotFound`
    /// when there are none.
    pub fn list(&self, user: &str) -> (r: Result<String, RemindError>)
        ensures
            r matches Ok(m) ==> exists|v: Seq<EventRecord>|
                {
                    &&& selects(
                        v,
                        self.events.events(),
                        |e: EventRecord| eq_ignore_ascii_case(e.receiver, user@),
                    )
                    &&& #[trigger] lists(m@, v)
                },
            self.events.answers() ==> (r is Ok <==> any_selected(
                self.events.events(),
                |e: EventRecord| eq_ignore_ascii_case(e.receiver, user@),
            )),
            self.events.answers() && r is Err ==> fails_with(r, ErrorKind::NotFound),
    {
        let events = match self.events.get_user_events(user) {
            Ok(v) => v,
            Err(e) => {
                return Err(e);
            },
        };
        proof {
            lemma_selected_some(
                database::event_views(events@),
                self.events.events(),
                |e: EventRecord| eq_ignore_ascii_case(e.receiver, user@),
            );
        }
        list_text(&events)
    }

    /// `remind delete <id>`: deletes the reminder when the sender is its
    /// receiver or author.
    pub fn delete(&mut self, command: PluginCommand) -> (r: Result<&'static str, RemindError>)
        ensures
            command.tokens@.len() == 0 ==> fails_with(r, ErrorKind::InvalidCommand),
            command.tokens@.len() > 0 && i64_text_value(command.tokens@[0]@) is None ==> fails_with(
                r,
                ErrorKind::Parsing,
            ),
            command.tokens@.len() > 0 && (i64_text_value(command.tokens@[0]@) matches Some(id)
                && !has_id(old(self).events.events(), id)) ==> fails_with(r, ErrorKind::NotFound),
            r matches Ok(m) ==> command.tokens@.len() > 0 && (i64_text_value(command.tokens@[0]@) matches Some(id) && {
                let recs = old(self).events.events();
                let e = recs[id_index(recs, id)];
                &&& has_id(recs, id)
                &&& (may_delete(e, command.source@) ==> m@ == "Successfully deleted"@
                    && final(self).events.events() == recs.remove(id_index(recs, id)))
                &&& (!may_delete(e, command.source@) ==> m@
                    == "Only the author or receiver can delete a reminder"@
                    && final(self).events.events() == recs)
            }),
            r is Err ==> final(self).events.events() == old(self).events.events(),
            final(self).events.answers() == old(self).events.answers(),
            command.tokens@.len() > 0 && old(self).events.answers() && (i64_text_value(
                command.tokens@[0]@,
            ) matches Some(id) && has_id(old(self).events.events(), id)) ==> r is Ok,
    {
        if command.tokens.len() == 0 {
            return Err(RemindError { kind: ErrorKind::InvalidCommand });
        }
        proof {
            assert(views_of(command.tokens@)[0] == command.tokens@[0]@);
        }
        let id = match parse_i64(command.tokens[0].as_str()) {
            Some(id) => id,
            None => {
                return Err(RemindError { kind: ErrorKind::Parsing });
            },
        };
        let event = match self.events.get_event(id) {
            Ok(e) => e,
            Err(_) => {
                return Err(RemindError { kind: ErrorKind::NotFound });
            },
        };
        if same_ignoring_ascii_case(event.receiver.as_str(), command.source.as_str())
            || same_ignoring_ascii_case(event.author.as_str(), command.source.as_str()) {
            match self.events.delete_event(id) {
                Ok(()) => Ok("Successfully deleted"),
                Err(e) => Err(e),
            }
        } else {
            Ok("Only the author or receiver can delete a reminder")
        }
    }
}

} // verus!
