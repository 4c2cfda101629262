//! The grammar of a reminder request: a receiver, then phrases that each
//! start with a keyword (`on`, `at`, `in`, `every`, `to`).

use vstd::prelude::*;

use super::error::{ErrorKind, RemindError};
use crate::clock::{midnight_secs, utc_date, utc_date_of, utc_midnight};
use crate::text::{count_digits, digit_count, is_digit, parse_u32, split_on, split_on_char, text_eq, u32_text_value, views_of};

verus! {

/// A parsed reminder request as a mathematical value.
pub struct ParserView {
    pub on_date: Option<Seq<char>>,
    pub at_time: Option<Seq<char>>,
    pub in_duration: Option<Seq<char>>,
    pub every_time: Option<Seq<char>>,
    pub target: Seq<char>,
    pub message: Option<Seq<char>>,
}

pub open spec fn opt_view(o: Option<String>) -> Option<Seq<char>> {
    match o {
        Some(s) => Some(s@),
        None => None,
    }
}

/// The phrases of a reminder request, each as it was written.
#[derive(Debug)]
pub struct CommandParser {
    on_date: Option<String>,
    at_time: Option<String>,
    in_duration: Option<String>,
    every_time: Option<String>,
    target: String,
    message: Option<String>,
}

impl View for CommandParser {
    type V = ParserView;

    closed spec fn view(&self) -> ParserView {
        ParserView {
            on_date: opt_view(self.on_date),
            at_time: opt_view(self.at_time),
            in_duration: opt_view(self.in_duration),
            every_time: opt_view(self.every_time),
            target: self.target@,
            message: opt_view(self.message),
        }
    }
}

/// The phrase that the parser is reading.
#[derive(Clone, Copy, Debug, PartialEq, Eq, Structural)]
pub enum ParseState {
    Idle,
    On,
    At,
    In,
    Every,
    Msg,
}

/// The phrase that a keyword starts.
pub open spec fn keyword_state(t: Seq<char>) -> Option<ParseState> {
    if t == "on"@ {
        Some(ParseState::On)
    } else if t == "at"@ {
        Some(ParseState::At)
    } else if t == "in"@ {
        Some(ParseState::In)
    } else if t == "every"@ {
        Some(ParseState::Every)
    } else if t == "to"@ {
        Some(ParseState::Msg)
    } else {
        None
    }
}

/// A request for `target` with no phrase yet.
pub open spec fn blank_view(target: Seq<char>) -> ParserView {
    ParserView {
        on_date: None,
        at_time: None,
        in_duration: None,
        every_time: None,
        target,
        message: None,
    }
}

/// Records the phrase `s` of kind `state`; a phrase given twice, or
/// words before any keyword, is refused.
pub open spec fn add_spec(p: ParserView, state: ParseState, s: Seq<char>) -> Result<ParserView, ErrorKind> {
    match state {
        ParseState::On if p.on_date is None => Ok(
            ParserView {
                on_date: Some(s),
                at_time: p.at_time,
                in_duration: p.in_duration,
                every_time: p.every_time,
                target: p.target,
                message: p.message,
            },
        ),
        ParseState::At if p.at_time is None => Ok(
            ParserView {
                on_date: p.on_date,
                at_time: Some(s),
                in_duration: p.in_duration,
                every_time: p.every_time,
                target: p.target,
                message: p.message,
            },
        ),
        ParseState::In if p.in_duration is None => Ok(
            ParserView {
                on_date: p.on_date,
                at_time: p.at_time,
                in_duration: Some(s),
                every_time: p.every_time,
                target: p.target,
                message: p.message,
            },
        ),
        ParseState::Msg if p.message is None => Ok(
            ParserView {
                on_date: p.on_date,
                at_time: p.at_time,
                in_duration: p.in_duration,
                every_time: p.every_time,
                target: p.target,
                message: Some(s),
            },
        ),
        ParseState::Every if p.every_time is None => Ok(
            ParserView {
                on_date: p.on_date,
                at_time: p.at_time,
                in_duration: p.in_duration,
                every_time: Some(s),
                target: p.target,
                message: p.message,
            },
        ),
        _ => Err(ErrorKind::MissingMessage),
    }
}

/// The words read so far, with `t` added after a space.
pub open spec fn extend_words(cur: Seq<char>, t: Seq<char>) -> Seq<char> {
    if cur.len() == 0 {
        t
    } else {
        cur + " "@ + t
    }
}

/// One token read in: a keyword closes the phrase being read, any other
/// word is added to it.
pub open spec fn step(q: ParserView, st: ParseState, cur: Seq<char>, t: Seq<char>) -> (
    Result<ParserView, ErrorKind>,
    ParseState,
    Seq<char>,
) {
    let next = match keyword_state(t) {
        Some(k) => k,
        None => st,
    };
    let cur2 = if keyword_state(t) is None {
        extend_words(cur, t)
    } else {
        cur
    };
    if next != st && st != ParseState::Idle {
        (add_spec(q, st, cur2), next, Seq::empty())
    } else {
        (Ok(q), next, cur2)
    }
}

/// The tokens read in from the left, stopping at the first error.
pub open spec fn scan(p: ParserView, tokens: Seq<Seq<char>>) -> (
    Result<ParserView, ErrorKind>,
    ParseState,
    Seq<char>,
)
    decreases tokens.len(),
{
    if tokens.len() == 0 {
        (Ok(p), ParseState::Idle, Seq::empty())
    } else {
        let prev = scan(p, tokens.drop_last());
        match prev.0 {
            Ok(q) => step(q, prev.1, prev.2, tokens.last()),
            Err(e) => prev,
        }
    }
}

/// A complete request has a message and a time that is not ambiguous.
pub open spec fn check_spec(q: ParserView) -> Result<ParserView, ErrorKind> {
    if q.message is None {
        Err(ErrorKind::MissingMessage)
    } else if q.in_duration is Some && (q.at_time is Some || q.on_date is Some) {
        Err(ErrorKind::AmbiguousTime)
    } else if q.in_duration is None && q.at_time is None && q.on_date is None {
        Err(ErrorKind::MissingTime)
    } else {
        Ok(q)
    }
}

/// The request that `tokens` make, starting from `p`.
pub open spec fn parse_spec(p: ParserView, tokens: Seq<Seq<char>>) -> Result<ParserView, ErrorKind> {
    let (r, st, cur) = scan(p, tokens);
    match r {
        Err(e) => Err(e),
        Ok(q) => match add_spec(q, st, cur) {
            Err(e) => Err(e),
            Ok(q2) => check_spec(q2),
        },
    }
}

pub open spec fn result_view(r: Result<CommandParser, RemindError>) -> Result<ParserView, ErrorKind> {
    match r {
        Ok(p) => Ok(p@),
        Err(e) => Err(e.kind),
    }
}

proof fn lemma_scan_error_stays(p: ParserView, tokens: Seq<Seq<char>>, i: int, e: ErrorKind)
    requires
        0 <= i <= tokens.len(),
        scan(p, tokens.take(i)).0 == Err::<ParserView, ErrorKind>(e),
    ensures
        scan(p, tokens).0 == Err::<ParserView, ErrorKind>(e),
    decreases tokens.len() - i,
{
    if i < tokens.len() {
        assert(tokens.take(i + 1).drop_last() =~= tokens.take(i));
        lemma_scan_error_stays(p, tokens, i + 1, e);
    } else {
        assert(tokens.take(i) =~= tokens);
    }
}

fn keyword(t: &str) -> (r: Option<ParseState>)
    ensures
        r == keyword_state(t@),
{
    if text_eq(t, "on") {
        Some(ParseState::On)
    } else if text_eq(t, "at") {
        Some(ParseState::At)
    } else if text_eq(t, "in") {
        Some(ParseState::In)
    } else if text_eq(t, "every") {
        Some(ParseState::Every)
    } else if text_eq(t, "to") {
        Some(ParseState::Msg)
    } else {
        None
    }
}

impl CommandParser {
    fn blank(target: String) -> (r: CommandParser)
        ensures
            r@ == blank_view(target@),
    {
        CommandParser {
            on_date: None,
            at_time: None,
            in_duration: None,
            every_time: None,
            target,
            message: None,
        }
    }

    /// Parses a request whose first token names who is reminded.
    pub fn parse_target(tokens: Vec<String>) -> (r: Result<Self, RemindError>)
        ensures
            tokens@.len() == 0 ==> result_view(r) == Err::<ParserView, ErrorKind>(
                ErrorKind::MissingReceiver,
            ),
            tokens@.len() > 0 ==> result_view(r) == parse_spec(
                blank_view(tokens@[0]@),
                views_of(tokens@).drop_first(),
            ),
    {
        let mut tokens = tokens;
        if tokens.len() == 0 {
            return Err(RemindError { kind: ErrorKind::MissingReceiver });
        }
        let ghost before = tokens@;
        let target = tokens.remove(0);
        proof {
            assert(views_of(tokens@) =~= views_of(before).drop_first());
        }
        CommandParser::blank(target).parse_tokens(tokens)
    }

    /// Parses a request for `target`.
    pub fn with_target(tokens: Vec<String>, target: String) -> (r: Result<Self, RemindError>)
        ensures
            result_view(r) == parse_spec(blank_view(target@), views_of(tokens@)),
    {
        CommandParser::blank(target).parse_tokens(tokens)
    }

    fn parse_tokens(self, tokens: Vec<String>) -> (r: Result<Self, RemindError>)
        ensures
            result_view(r) == parse_spec(self@, views_of(tokens@)),
    {
        let ghost p0 = self@;
        let ghost ts = views_of(tokens@);
        let mut parser = self;
        let mut state = ParseState::Idle;
        let mut cur = String::new();
        let n = tokens.len();
        let mut i: usize = 0;
        proof {
            assert(ts.take(0) =~= Seq::<Seq<char>>::empty());
        }
        while i < n
            invariant
                n == tokens@.len(),
                ts == views_of(tokens@),
                p0 == self@,
                i <= n,
                scan(p0, ts.take(i as int)) == (
                    Ok::<ParserView, ErrorKind>(parser@),
                    state,
                    cur@,
                ),
            decreases n - i,
        {
            proof {
                assert(ts.take(i as int + 1).drop_last() =~= ts.take(i as int));
                assert(ts.take(i as int + 1).last() == tokens@[i as int]@);
            }
            let token = tokens[i].as_str();
            let ghost cur0 = cur@;
            let ghost q0 = parser@;
            let ghost st0 = state;
            proof {
                assert(scan(p0, ts.take(i as int + 1)) == step(q0, st0, cur0, token@));
            }
            let next = match keyword(token) {
                Some(k) => k,
                None => {
                    if cur.as_str().unicode_len() > 0 {
                        cur.append(" ");
                    }
                    cur.append(token);
                    state
                },
            };
            if next != state {
                if state != ParseState::Idle {
                    let words = cur;
                    cur = String::new();
                    match parser.add_string_by_state(state, words) {
                        Ok(p) => {
                            parser = p;
                        },
                        Err(e) => {
                            proof {
                                assert(step(q0, st0, cur0, token@).0 == Err::<ParserView, ErrorKind>(
                                    e.kind,
                                ));
                                lemma_scan_error_stays(p0, ts, i as int + 1, e.kind);
                            }
                            return Err(e);
                        },
                    }
                }
                state = next;
            }
            i = i + 1;
        }
        proof {
            assert(ts.take(n as int) =~= ts);
        }
        let parser = match parser.add_string_by_state(state, cur) {
            Ok(p) => p,
            Err(e) => {
                return Err(e);
            },
        };
        if parser.message.is_none() {
            return Err(RemindError { kind: ErrorKind::MissingMessage });
        }
        if parser.in_duration.is_some() && parser.at_time.is_some() || parser.in_duration.is_some()
            && parser.on_date.is_some() {
            return Err(RemindError { kind: ErrorKind::AmbiguousTime });
        }
        if parser.in_duration.is_none() && parser.at_time.is_none() && parser.on_date.is_none() {
            return Err(RemindError { kind: ErrorKind::MissingTime });
        }
        Ok(parser)
    }

    fn add_string_by_state(self, state: ParseState, string: String) -> (r: Result<Self, RemindError>)
        ensures
            result_view(r) == add_spec(self@, state, string@),
    {
        let s = Some(string);
        match state {
            ParseState::On if self.on_date.is_none() => Ok(CommandParser { on_date: s, ..self }),
            ParseState::At if self.at_time.is_none() => Ok(CommandParser { at_time: s, ..self }),
            ParseState::In if self.in_duration.is_none() => Ok(
                CommandParser { in_duration: s, ..self },
            ),
            ParseState::Msg if self.message.is_none() => Ok(CommandParser { message: s, ..self }),
            ParseState::Every if self.every_time.is_none() => Ok(
                CommandParser { every_time: s, ..self },
            ),
            _ => Err(RemindError { kind: ErrorKind::MissingMessage }),
        }
    }

    /// Who is reminded.
    pub fn get_target(&self) -> (r: &str)
        ensures
            r@ == self@.target,
    {
        self.target.as_str()
    }

    /// What the reminder says.
    pub fn get_message(&self) -> (r: &str)
        requires
            self@.message is Some,
        ensures
            Some(r@) == self@.message,
    {
        match &self.message {
            Some(m) => m.as_str(),
            None => "",
        }
    }

    /// The `on` phrase, as written.
    pub fn date_phrase(&self) -> (r: Option<&str>)
        ensures
            r matches Some(s) ==> self@.on_date == Some(s@),
            r is None <==> self@.on_date is None,
    {
        match &self.on_date {
            Some(s) => Some(s.as_str()),
            None => None,
        }
    }

    /// The `at` phrase, as written.
    pub fn time_phrase(&self) -> (r: Option<&str>)
        ensures
            r matches Some(s) ==> self@.at_time == Some(s@),
            r is None <==> self@.at_time is None,
    {
        match &self.at_time {
            Some(s) => Some(s.as_str()),
            None => None,
        }
    }

    /// The `in` phrase, as written.
    pub fn duration_phrase(&self) -> (r: Option<&str>)
        ensures
            r matches Some(s) ==> self@.in_duration == Some(s@),
            r is None <==> self@.in_duration is None,
    {
        match &self.in_duration {
            Some(s) => Some(s.as_str()),
            None => None,
        }
    }

    /// The `every` phrase, as written.
    pub fn repeat_phrase(&self) -> (r: Option<&str>)
        ensures
            r matches Some(s) ==> self@.every_time == Some(s@),
            r is None <==> self@.every_time is None,
    {
        match &self.every_time {
            Some(s) => Some(s.as_str()),
            None => None,
        }
    }
}

/// What humantime reads from `s`: whole seconds, and the nanoseconds
/// past them.
pub uninterp spec fn duration_of_text(s: Seq<char>) -> Option<(int, int)>;

/// The most ASCII digits a duration phrase may hold. humantime panics only
/// when its seconds reach exactly `u64::MAX` (an odd number) with exactly
/// a second of nanoseconds left to carry. Every unit above a second is
/// even, so that takes a run of at least 12 digits in the largest unit
/// (10^11 years are below `u64::MAX` seconds), a digit for an odd number
/// of seconds, and 4 more for the full second of nanoseconds (`1000ms`):
/// 17 at least.
pub const MAX_DURATION_DIGITS: usize = 16;

/// Relies on humantime's `parse_duration`, which is an error for text it
/// cannot read: the duration as whole seconds and the nanoseconds past
/// them. It panics when its seconds reach `u64::MAX` with a full second
/// of nanoseconds to carry; the bound on digits leaves such text out.
#[verifier::external_body]
fn parse_duration(s: &str) -> (r: Option<(u64, u32)>)
    requires
        digit_count(s@) <= MAX_DURATION_DIGITS,
    ensures
        r matches Some((a, b)) ==> duration_of_text(s@) == Some((a as int, b as int)),
        r is None ==> duration_of_text(s@) is None,
{
    match humantime::parse_duration(s) {
        Ok(d) => Some((d.as_secs(), d.subsec_nanos())),
        Err(_) => None,
    }
}

/// `v` as an `i64`, or the error `k` when it does not fit.
pub open spec fn fit(v: int, k: ErrorKind) -> Result<int, ErrorKind> {
    if i64::MIN <= v <= i64::MAX {
        Ok(v)
    } else {
        Err(k)
    }
}

/// Each part read as a `u32`, when all of them can be.
pub open spec fn parsed_all(parts: Seq<Seq<char>>) -> Option<Seq<int>>
    decreases parts.len(),
{
    if parts.len() == 0 {
        Some(Seq::empty())
    } else {
        match (parsed_all(parts.drop_last()), u32_text_value(parts.last())) {
            (Some(prev), Some(v)) => Some(prev.push(v)),
            _ => None,
        }
    }
}

/// Midnight UTC of a date written `day.month[.year]`; without a year,
/// the next such date that has not passed by `now`.
pub open spec fn date_spec(p: Seq<char>, now: int) -> Result<int, ErrorKind> {
    match parsed_all(split_on(p, '.')) {
        None => Err(ErrorKind::InvalidDate),
        Some(nums) => if nums.len() < 2 || nums.len() > 3 {
            Err(ErrorKind::InvalidDate)
        } else if nums.len() == 3 {
            if nums[2] > i32::MAX {
                Err(ErrorKind::InvalidDate)
            } else {
                match midnight_secs(nums[2], nums[1], nums[0]) {
                    Some(t) => Ok(t),
                    None => Err(ErrorKind::InvalidDate),
                }
            }
        } else {
            match utc_date_of(now) {
                None => Err(ErrorKind::InvalidDate),
                Some((y, m, d)) => match midnight_secs(y, nums[1], nums[0]) {
                    None => Err(ErrorKind::InvalidDate),
                    Some(t) => if t + 86400 < now {
                        if y + 1 <= i32::MAX {
                            match midnight_secs(y + 1, nums[1], nums[0]) {
                                Some(t2) => Ok(t2),
                                None => Err(ErrorKind::InvalidDate),
                            }
                        } else {
                            Err(ErrorKind::InvalidDate)
                        }
                    } else {
                        Ok(t)
                    },
                },
            }
        },
    }
}

/// The seconds after midnight of a time written `hour:minute`.
pub open spec fn time_spec(p: Seq<char>) -> Result<int, ErrorKind> {
    match parsed_all(split_on(p, ':')) {
        None => Err(ErrorKind::InvalidTime),
        Some(nums) => if nums.len() == 2 && nums[0] < 24 && nums[1] < 60 {
            Ok(nums[0] * 3600 + nums[1] * 60)
        } else {
            Err(ErrorKind::InvalidTime)
        },
    }
}

/// When a request made at `now` comes due: after its `in` duration, which
/// must be at least `min_secs`; or on its date, at its time; or at its
/// time today, or tomorrow when that has passed.
pub open spec fn get_time_spec(v: ParserView, min_secs: int, now: int) -> Result<int, ErrorKind> {
    match v.in_duration {
        Some(s) => if digit_count(s) > MAX_DURATION_DIGITS {
            Err(ErrorKind::InvalidTime)
        } else {
            match duration_of_text(s) {
            None => Err(ErrorKind::InvalidTime),
            Some((secs, nanos)) => if secs < min_secs {
                Err(ErrorKind::TimeShort)
            } else {
                fit(now + secs, ErrorKind::InvalidTime)
            },
        }
        },
        None => {
            let date = match v.on_date {
                Some(d) => Some(date_spec(d, now)),
                None => None,
            };
            match date {
                Some(Err(e)) => Err(e),
                _ => {
                    match v.at_time {
                        Some(t) => match time_spec(t) {
                            Err(e) => Err(e),
                            Ok(tm) => match date {
                                Some(Ok(d)) => fit(d + tm, ErrorKind::InvalidDate),
                                _ => match utc_date_of(now) {
                                    None => Err(ErrorKind::InvalidDate),
                                    Some((y, m, dd)) => match midnight_secs(y, m, dd) {
                                        None => Err(ErrorKind::InvalidDate),
                                        Some(today) => if today + tm < now {
                                            fit(today + 86400 + tm, ErrorKind::InvalidDate)
                                        } else {
                                            fit(today + tm, ErrorKind::InvalidDate)
                                        },
                                    },
                                },
                            },
                        },
                        None => match date {
                            Some(Ok(d)) => Ok(d),
                            _ => Err(ErrorKind::MissingTime),
                        },
                    }
                },
            }
        },
    }
}

/// The repeat phrase with a count in front: a phrase that does not start
/// with a digit means one of its unit.
pub open spec fn with_count(w: Seq<char>) -> Seq<char> {
    if w.len() > 0 && is_digit(w[0]) {
        w
    } else {
        "1"@ + w
    }
}

/// The repeat interval in seconds, which must be at least `min_secs`.
pub open spec fn get_repeat_spec(v: ParserView, min_secs: int) -> Result<Option<int>, ErrorKind> {
    match v.every_time {
        None => Ok(None),
        Some(w) => if digit_count(with_count(w)) > MAX_DURATION_DIGITS {
            Err(ErrorKind::InvalidTime)
        } else {
            match duration_of_text(with_count(w)) {
            None => Err(ErrorKind::InvalidTime),
            Some((secs, nanos)) => if secs < min_secs {
                Err(ErrorKind::RepeatTimeShort)
            } else if secs > i64::MAX {
                Err(ErrorKind::InvalidTime)
            } else {
                Ok(Some(secs))
            },
        }
        },
    }
}

pub open spec fn int_result_view(r: Result<i64, RemindError>) -> Result<int, ErrorKind> {
    match r {
        Ok(v) => Ok(v as int),
        Err(e) => Err(e.kind),
    }
}

/// Reads each part as a `u32`.
fn parse_all(parts: &Vec<String>) -> (r: Option<Vec<u32>>)
    ensures
        r is Some <==> parsed_all(views_of(parts@)) is Some,
        r matches Some(v) ==> parsed_all(views_of(parts@)) == Some(v@.map_values(|x: u32| x as int)),
{
    let n = parts.len();
    let mut out: Vec<u32> = Vec::new();
    let mut i: usize = 0;
    let ghost ps = views_of(parts@);
    proof {
        assert(ps.take(0) =~= Seq::<Seq<char>>::empty());
        assert(out@.map_values(|x: u32| x as int) =~= Seq::<int>::empty());
    }
    while i < n
        invariant
            n == parts@.len(),
            ps == views_of(parts@),
            i <= n,
            parsed_all(ps.take(i as int)) == Some(out@.map_values(|x: u32| x as int)),
        decreases n - i,
    {
        proof {
            assert(ps.take(i as int + 1).drop_last() =~= ps.take(i as int));
            assert(ps.take(i as int + 1).last() == parts@[i as int]@);
        }
        match parse_u32(parts[i].as_str()) {
            Some(v) => {
                let ghost before = out@;
                out.push(v);
                proof {
                    assert(out@.map_values(|x: u32| x as int) =~= before.map_values(|x: u32| x as int).push(v as int));
                }
            },
            None => {
                proof {
                    lemma_parsed_none_stays(ps, i as int + 1);
                }
                return None;
            },
        }
        i = i + 1;
    }
    proof {
        assert(ps.take(n as int) =~= ps);
    }
    Some(out)
}

proof fn lemma_parsed_none_stays(ps: Seq<Seq<char>>, i: int)
    requires
        0 <= i <= ps.len(),
        parsed_all(ps.take(i)) is None,
    ensures
        parsed_all(ps) is None,
    decreases ps.len() - i,
{
    if i < ps.len() {
        assert(ps.take(i + 1).drop_last() =~= ps.take(i));
        lemma_parsed_none_stays(ps, i + 1);
    } else {
        assert(ps.take(i) =~= ps);
    }
}

fn parse_date(str_date: &str, now: i64) -> (r: Result<i64, RemindError>)
    ensures
        int_result_view(r) == date_spec(str_date@, now as int),
{
    let parts = split_on_char(str_date, '.');
    let nums = match parse_all(&parts) {
        Some(v) => v,
        None => {
            return Err(RemindError { kind: ErrorKind::InvalidDate });
        },
    };
    if nums.len() < 2 || nums.len() > 3 {
        return Err(RemindError { kind: ErrorKind::InvalidDate });
    }
    let day = nums[0];
    let month = nums[1];
    if nums.len() == 3 {
        let year = nums[2];
        if year > i32::MAX as u32 {
            return Err(RemindError { kind: ErrorKind::InvalidDate });
        }
        return match utc_midnight(year as i32, month, day) {
            Some(t) => Ok(t),
            None => Err(RemindError { kind: ErrorKind::InvalidDate }),
        };
    }
    let (y, _m, _d) = match utc_date(now) {
        Some(ymd) => ymd,
        None => {
            return Err(RemindError { kind: ErrorKind::InvalidDate });
        },
    };
    let t = match utc_midnight(y, month, day) {
        Some(t) => t,
        None => {
            return Err(RemindError { kind: ErrorKind::InvalidDate });
        },
    };
    if (t as i128) + 86400 < now as i128 {
        if y == i32::MAX {
            return Err(RemindError { kind: ErrorKind::InvalidDate });
        }
        match utc_midnight(y + 1, month, day) {
            Some(t2) => Ok(t2),
            None => Err(RemindError { kind: ErrorKind::InvalidDate }),
        }
    } else {
        Ok(t)
    }
}

fn parse_time(str_time: &str) -> (r: Result<i64, RemindError>)
    ensures
        int_result_view(r) == time_spec(str_time@),
{
    let parts = split_on_char(str_time, ':');
    let nums = match parse_all(&parts) {
        Some(v) => v,
        None => {
            return Err(RemindError { kind: ErrorKind::InvalidTime });
        },
    };
    if nums.len() == 2 && nums[0] < 24 && nums[1] < 60 {
        Ok(nums[0] as i64 * 3600 + nums[1] as i64 * 60)
    } else {
        Err(RemindError { kind: ErrorKind::InvalidTime })
    }
}

/// `a + b` when it fits in an `i64`.
fn add_fit(a: i64, b: i64, k: ErrorKind) -> (r: Result<i64, RemindError>)
    ensures
        int_result_view(r) == fit(a + b, k),
{
    match a.checked_add(b) {
        Some(v) => Ok(v),
        None => Err(RemindError { kind: k }),
    }
}

/// `v` when it fits in an `i64`.
fn wide_fit(v: i128, k: ErrorKind) -> (r: Result<i64, RemindError>)
    ensures
        int_result_view(r) == fit(v as int, k),
{
    if i64::MIN as i128 <= v && v <= i64::MAX as i128 {
        Ok(v as i64)
    } else {
        Err(RemindError { kind: k })
    }
}

impl CommandParser {
    /// When the reminder comes due, for a request made at `now` (seconds
    /// since the epoch); an `in` duration must be at least `min_secs`.
    pub fn get_time(&self, min_secs: u64, now: i64) -> (r: Result<i64, RemindError>)
        ensures
            int_result_view(r) == get_time_spec(self@, min_secs as int, now as int),
    {
        if let Some(str_duration) = &self.in_duration {
            if count_digits(str_duration.as_str()) > MAX_DURATION_DIGITS {
                return Err(RemindError { kind: ErrorKind::InvalidTime });
            }
            let (secs, _nanos) = match parse_duration(str_duration.as_str()) {
                Some(d) => d,
                None => {
                    return Err(RemindError { kind: ErrorKind::InvalidTime });
                },
            };
            if secs < min_secs {
                return Err(RemindError { kind: ErrorKind::TimeShort });
            }
            return wide_fit(now as i128 + secs as i128, ErrorKind::InvalidTime);
        }
        let date: Option<i64> = match &self.on_date {
            Some(str_date) => match parse_date(str_date.as_str(), now) {
                Ok(d) => Some(d),
                Err(e) => {
                    return Err(e);
                },
            },
            None => None,
        };
        match &self.at_time {
            Some(str_time) => {
                let tm = match parse_time(str_time.as_str()) {
                    Ok(t) => t,
                    Err(e) => {
                        return Err(e);
                    },
                };
                match date {
                    Some(d) => add_fit(d, tm, ErrorKind::InvalidDate),
                    None => {
                        let (y, m, dd) = match utc_date(now) {
                            Some(ymd) => ymd,
                            None => {
                                return Err(RemindError { kind: ErrorKind::InvalidDate });
                            },
                        };
                        let today = match utc_midnight(y, m, dd) {
                            Some(t) => t,
                            None => {
                                return Err(RemindError { kind: ErrorKind::InvalidDate });
                            },
                        };
                        if (today as i128) + (tm as i128) < now as i128 {
                            wide_fit(
                                today as i128 + 86400 + tm as i128,
                                ErrorKind::InvalidDate,
                            )
                        } else {
                            add_fit(today, tm, ErrorKind::InvalidDate)
                        }
                    },
                }
            },
            None => match date {
                Some(d) => Ok(d),
                None => Err(RemindError { kind: ErrorKind::MissingTime }),
            },
        }
    }

    /// The repeat interval in seconds, if the request repeats; it must be
    /// at least `min_secs`.
    pub fn get_repeat(&self, min_secs: u64) -> (r: Result<Option<i64>, RemindError>)
        ensures
            match r {
                Ok(Some(v)) => get_repeat_spec(self@, min_secs as int) == Ok::<Option<int>, ErrorKind>(Some(v as int)),
                Ok(None) => get_repeat_spec(self@, min_secs as int) == Ok::<Option<int>, ErrorKind>(None),
                Err(e) => get_repeat_spec(self@, min_secs as int) == Err::<Option<int>, ErrorKind>(e.kind),
            },
    {
        match &self.every_time {
            None => Ok(None),
            Some(words) => {
                let w = words.as_str();
                let counted = if w.unicode_len() > 0 && '0' <= w.get_char(0) && w.get_char(0) <= '9' {
                    w.to_owned()
                } else {
                    let mut c = String::from_str("1");
                    c.append(w);
                    c
                };
                if count_digits(counted.as_str()) > MAX_DURATION_DIGITS {
                    return Err(RemindError { kind: ErrorKind::InvalidTime });
                }
                let (secs, _nanos) = match parse_duration(counted.as_str()) {
                    Some(d) => d,
                    None => {
                        return Err(RemindError { kind: ErrorKind::InvalidTime });
                    },
                };
                if secs < min_secs {
                    return Err(RemindError { kind: ErrorKind::RepeatTimeShort });
                }
                if secs > i64::MAX as u64 {
                    return Err(RemindError { kind: ErrorKind::InvalidTime });
                }
                Ok(Some(secs as i64))
            },
        }
    }
}

} // verus!
