//! The handler registry, the fan-out of events to every handler, and the
//! routing of addressed commands to exactly one handler.

use vstd::prelude::*;

use crate::error::log_error;
use crate::plugin::{Event, ExecutionStatus, Plugin, PluginCommand, PluginName};
use crate::text::{join, join_with, lower_of, lowercase, views_of};

verus! {

/// The registered handlers, each under its lowercased name.
///
/// `Clone` gives the snapshot that one dispatch pass iterates over.
#[derive(Clone)]
pub struct ThreadedPlugins<H> {
    entries: Vec<(String, H)>,
    map: Ghost<Map<Seq<char>, H>>,
}

impl<H> View for ThreadedPlugins<H> {
    type V = Map<Seq<char>, H>;

    closed spec fn view(&self) -> Map<Seq<char>, H> {
        self.map@
    }
}

impl<H> ThreadedPlugins<H> {
    /// The names in registration order.
    pub closed spec fn names(&self) -> Seq<Seq<char>> {
        self.entries@.map_values(|e: (String, H)| e.0@)
    }

    pub closed spec fn handlers(&self) -> Seq<H> {
        self.entries@.map_values(|e: (String, H)| e.1)
    }

    /// Each name occurs once, and the entries are exactly the view.
    pub closed spec fn wf(&self) -> bool {
        &&& forall|i: int, j: int|
            0 <= i < j < self.entries@.len() ==> self.entries@[i].0@ != self.entries@[j].0@
        &&& forall|i: int|
            0 <= i < self.entries@.len() ==> {
                &&& self.map@.contains_key(#[trigger] self.entries@[i].0@)
                &&& self.map@[self.entries@[i].0@] == self.entries@[i].1
            }
        &&& forall|k: Seq<char>|
            self.map@.contains_key(k) ==> exists|i: int|
                0 <= i < self.entries@.len() && (#[trigger] self.entries@[i].0@) == k
    }

    /// A registry without handlers.
    pub fn new() -> (r: Self)
        ensures
            r.wf(),
            r@ == Map::<Seq<char>, H>::empty(),
    {
        ThreadedPlugins { entries: Vec::new(), map: Ghost(Map::empty()) }
    }

    /// The number of registered handlers.
    pub fn len(&self) -> (r: usize)
        ensures
            r == self.names().len(),
    {
        self.entries.len()
    }

    /// The position of the entry named `key`, if any.
    fn position(&self, key: &String) -> (r: Option<usize>)
        requires
            self.wf(),
        ensures
            r is None <==> !self@.contains_key(key@),
            r matches Some(i) ==> i < self.entries@.len() && self.entries@[i as int].0@ == key@,
    {
        let n = self.entries.len();
        let mut i: usize = 0;
        while i < n
            invariant
                self.wf(),
                n == self.entries@.len(),
                i <= n,
                forall|j: int| 0 <= j < i ==> self.entries@[j].0@ != key@,
            decreases n - i,
        {
            if self.entries[i].0 == *key {
                return Some(i);
            }
            i = i + 1;
        }
        None
    }

    /// Stores `plugin` under the lowercased `name`, replacing the handler
    /// that was stored under it before.
    pub fn insert(&mut self, name: &str, plugin: H)
        requires
            old(self).wf(),
        ensures
            final(self).wf(),
            final(self)@ == old(self)@.insert(lower_of(name@), plugin),
    {
        let key = lowercase(name);
        match self.position(&key) {
            Some(i) => {
                let ghost k = key@;
                let ghost before = self.entries@;
                self.entries.set(i, (key, plugin));
                self.map = Ghost(self.map@.insert(k, plugin));
                assert forall|j: int| 0 <= j < self.entries@.len() implies {
                    &&& self.map@.contains_key(#[trigger] self.entries@[j].0@)
                    &&& self.map@[self.entries@[j].0@] == self.entries@[j].1
                } by {
                    if j != i {
                        assert(before[j] == self.entries@[j]);
                    }
                }
                assert forall|k2: Seq<char>| self.map@.contains_key(k2) implies exists|j: int|
                    0 <= j < self.entries@.len() && (#[trigger] self.entries@[j].0@) == k2 by {
                    if k2 != k {
                        let j = choose|j: int| 0 <= j < before.len() && (#[trigger] before[j].0@) == k2;
                        assert(self.entries@[j] == before[j]);
                    } else {
                        assert(self.entries@[i as int].0@ == k2);
                    }
                }
            },
            None => {
                let ghost k = key@;
                let ghost before = self.entries@;
                self.entries.push((key, plugin));
                self.map = Ghost(self.map@.insert(k, plugin));
                let ghost n = self.entries@.len() - 1;
                assert(self.entries@[n].0@ == k);
                assert forall|k2: Seq<char>| self.map@.contains_key(k2) implies exists|j: int|
                    0 <= j < self.entries@.len() && (#[trigger] self.entries@[j].0@) == k2 by {
                    if k2 != k {
                        let j = choose|j: int| 0 <= j < before.len() && (#[trigger] before[j].0@) == k2;
                        assert(self.entries@[j] == before[j]);
                    } else {
                        assert(self.entries@[n].0@ == k2);
                    }
                }
            },
        }
    }

    /// Removes the handler stored under the lowercased `name`; `Some`
    /// when there was one.
    pub fn remove(&mut self, name: &str) -> (r: Option<()>)
        requires
            old(self).wf(),
        ensures
            final(self).wf(),
            r is Some <==> old(self)@.contains_key(lower_of(name@)),
            final(self)@ == old(self)@.remove(lower_of(name@)),
    {
        let key = lowercase(name);
        match self.position(&key) {
            Some(i) => {
                let ghost k = key@;
                let ghost before = self.entries@;
                self.entries.remove(i);
                self.map = Ghost(self.map@.remove(k));
                assert forall|j: int| 0 <= j < self.entries@.len() implies {
                    &&& self.map@.contains_key(#[trigger] self.entries@[j].0@)
                    &&& self.map@[self.entries@[j].0@] == self.entries@[j].1
                } by {
                    if j < i {
                        assert(before[j] == self.entries@[j]);
                    } else {
                        assert(before[j + 1] == self.entries@[j]);
                    }
                }
                assert forall|k2: Seq<char>| self.map@.contains_key(k2) implies exists|j: int|
                    0 <= j < self.entries@.len() && (#[trigger] self.entries@[j].0@) == k2 by {
                    let j = choose|j: int| 0 <= j < before.len() && (#[trigger] before[j].0@) == k2;
                    if j < i {
                        assert(self.entries@[j] == before[j]);
                    } else {
                        assert(j != i);
                        assert(self.entries@[j - 1] == before[j]);
                    }
                }
                Some(())
            },
            None => {
                assert(self.map@.remove(key@) =~= self.map@);
                None
            },
        }
    }

    /// The handler stored under the lowercased `name`.
    pub fn get(&self, name: &str) -> (r: Option<&H>)
        requires
            self.wf(),
        ensures
            r is Some <==> self@.contains_key(lower_of(name@)),
            r matches Some(h) ==> *h == self@[lower_of(name@)],
    {
        let key = lowercase(name);
        match self.position(&key) {
            Some(i) => Some(&self.entries[i].1),
            None => None,
        }
    }

    /// The registered names, in registration order, separated by `, `.
    pub fn names_text(&self) -> (r: String)
        ensures
            r@ == join_with(self.names(), ", "@),
    {
        let n = self.entries.len();
        let mut names: Vec<String> = Vec::new();
        let mut i: usize = 0;
        while i < n
            invariant
                n == self.entries@.len(),
                i <= n,
                views_of(names@) =~= self.names().take(i as int),
            decreases n - i,
        {
            let name = self.entries[i].0.clone();
            let ghost before = names@;
            names.push(name);
            proof {
                assert(views_of(names@) =~= views_of(before).push(name@));
                assert(self.names().take(i as int + 1) =~= self.names().take(i as int).push(
                    self.names()[i as int],
                ));
            }
            i = i + 1;
        }
        proof {
            assert(self.names().take(n as int) =~= self.names());
        }
        join(&names, ", ")
    }

    /// The entry at `index`, in registration order.
    pub fn entry(&self, index: usize) -> (r: (&str, &H))
        requires
            index < self.names().len(),
        ensures
            r.0@ == self.names()[index as int],
            *r.1 == self.handlers()[index as int],
    {
        (self.entries[index].0.as_str(), &self.entries[index].1)
    }
}

/// What the dispatcher does with one handler's fast-path outcome.
#[derive(Clone, Debug)]
pub enum Action {
    /// The handler is done with the event.
    Done,
    /// The handler failed: log this line, which names the handler.
    Log(String),
    /// Run the handler's background entry point in a task of its own.
    Spawn,
}

/// The mathematical value of an `Action`.
pub enum ActionView {
    Done,
    Log(Seq<char>),
    Spawn,
}

impl View for Action {
    type V = ActionView;

    open spec fn view(&self) -> ActionView {
        match self {
            Action::Done => ActionView::Done,
            Action::Log(t) => ActionView::Log(t@),
            Action::Spawn => ActionView::Spawn,
        }
    }
}

/// A log line tagged with the handler's name.
pub open spec fn tagged(name: Seq<char>, text: Seq<char>) -> Seq<char> {
    name + ": "@ + text
}

/// The action owed to the outcome `status` of the handler `name`.
pub open spec fn action_spec(name: Seq<char>, status: ExecutionStatus) -> ActionView {
    match status {
        ExecutionStatus::Done => ActionView::Done,
        ExecutionStatus::Failed(e) => ActionView::Log(tagged(name, e.text_spec())),
        ExecutionStatus::RequiresThread => ActionView::Spawn,
    }
}

/// The actions for one event, handler by handler.
pub open spec fn plan_spec(names: Seq<Seq<char>>, statuses: Seq<ExecutionStatus>) -> Seq<
    ActionView,
> {
    Seq::new(names.len(), |i: int| action_spec(names[i], statuses[i]))
}

pub open spec fn actions_view(v: Seq<Action>) -> Seq<ActionView> {
    v.map_values(|a: Action| a@)
}

/// Turns the outcome of the handler `name` into what the dispatcher does.
pub fn classify(name: &str, status: ExecutionStatus) -> (r: Action)
    ensures
        r@ == action_spec(name@, status),
{
    match status {
        ExecutionStatus::Done => Action::Done,
        ExecutionStatus::Failed(e) => {
            let mut line = String::from_str(name);
            line.append(": ");
            let text = log_error(&e);
            line.append(text.as_str());
            Action::Log(line)
        },
        ExecutionStatus::RequiresThread => Action::Spawn,
    }
}

/// The actions for the outcomes `statuses`, one per handler name.
pub fn plan_dispatch(names: &Vec<String>, statuses: Vec<ExecutionStatus>) -> (r: Vec<Action>)
    requires
        names@.len() == statuses@.len(),
    ensures
        actions_view(r@) == plan_spec(views_of(names@), statuses@),
{
    let n = names.len();
    let mut actions: Vec<Action> = Vec::new();
    let mut rest = statuses;
    let ghost all = rest@;
    let mut i: usize = 0;
    while i < n
        invariant
            n == names@.len(),
            all.len() == n,
            i <= n,
            rest@ =~= all.subrange(i as int, n as int),
            actions_view(actions@) =~= plan_spec(views_of(names@), all).take(i as int),
        decreases n - i,
    {
        let status = rest.remove(0);
        assert(status == all[i as int]);
        let a = classify(names[i].as_str(), status);
        let ghost prev = actions@;
        actions.push(a);
        proof {
            assert(actions_view(actions@) =~= actions_view(prev).push(a@));
            assert(views_of(names@)[i as int] == names@[i as int]@);
        }
        i = i + 1;
    }
    proof {
        assert(plan_spec(views_of(names@), all).take(n as int) =~= plan_spec(views_of(names@), all));
    }
    actions
}

/// Where an addressed command goes.
#[derive(Clone, Debug)]
pub enum Route {
    /// Nothing but blanks was sent: reply `text` to `target`.
    Usage { target: String, text: String },
    /// No handler has the name: reply `text` to `target`.
    NotFound { target: String, text: String },
    /// Run the handler at `index` of the snapshot, whose name was given
    /// as `name`, on `command`, in a task of its own.
    Run { index: usize, name: String, command: PluginCommand },
}

/// The characters with Unicode's White_Space property, which
/// `char::is_whitespace` accepts and `str::trim` removes.
pub open spec fn is_blank_char(c: char) -> bool {
    let u = c as u32;
    (0x9 <= u && u <= 0xD) || u == 0x20 || u == 0x85 || u == 0xA0 || u == 0x1680 || (0x2000 <= u
        && u <= 0x200A) || u == 0x2028 || u == 0x2029 || u == 0x202F || u == 0x205F || u == 0x3000
}

fn blank_char(c: char) -> (r: bool)
    ensures
        r == is_blank_char(c),
{
    let u = c as u32;
    (0x9 <= u && u <= 0xD) || u == 0x20 || u == 0x85 || u == 0xA0 || u == 0x1680 || (0x2000 <= u
        && u <= 0x200A) || u == 0x2028 || u == 0x2029 || u == 0x202F || u == 0x205F || u == 0x3000
}

pub open spec fn all_blank(tokens: Seq<Seq<char>>) -> bool {
    forall|i: int, j: int|
        0 <= i < tokens.len() && 0 <= j < tokens[i].len() ==> is_blank_char(#[trigger] tokens[i][j])
}

/// The hint for a command without a name.
pub open spec fn usage_text(bot: Seq<char>) -> Seq<char> {
    "usage: "@ + bot + ": <command> [arguments], try '"@ + bot + ": help'"@
}

/// The reply for a command whose handler is unknown.
pub open spec fn not_found_text(name: Seq<char>, bot: Seq<char>) -> Seq<char> {
    "'"@ + name + "' is not a command, try '"@ + bot + ": help'"@
}

fn tokens_blank(tokens: &Vec<String>) -> (r: bool)
    ensures
        r == all_blank(views_of(tokens@)),
{
    let n = tokens.len();
    let mut i: usize = 0;
    while i < n
        invariant
            n == tokens@.len(),
            i <= n,
            forall|a: int, b: int|
                0 <= a < i && 0 <= b < tokens@[a]@.len() ==> is_blank_char(#[trigger] tokens@[a]@[b]),
        decreases n - i,
    {
        let t = tokens[i].as_str();
        let m = t.unicode_len();
        let mut j: usize = 0;
        while j < m
            invariant
                n == tokens@.len(),
                i < n,
                t@ == tokens@[i as int]@,
                m == t@.len(),
                j <= m,
                forall|a: int, b: int|
                    0 <= a < i && 0 <= b < tokens@[a]@.len() ==> is_blank_char(#[trigger] tokens@[a]@[b]),
                forall|b: int| 0 <= b < j ==> is_blank_char(#[trigger] t@[b]),
            decreases m - j,
        {
            let c = t.get_char(j);
            if !blank_char(c) {
                proof {
                    assert(views_of(tokens@)[i as int][j as int] == c);
                }
                return false;
            }
            j = j + 1;
        }
        i = i + 1;
    }
    proof {
        assert forall|a: int, b: int|
            0 <= a < views_of(tokens@).len() && 0 <= b < views_of(tokens@)[a].len() implies is_blank_char(
            #[trigger] views_of(tokens@)[a][b],
        ) by {
            assert(views_of(tokens@)[a] == tokens@[a]@);
        }
    }
    true
}

fn usage_reply(bot: &str) -> (r: String)
    ensures
        r@ == usage_text(bot@),
{
    let mut s = String::from_str("usage: ");
    s.append(bot);
    s.append(": <command> [arguments], try '");
    s.append(bot);
    s.append(": help'");
    s
}

fn not_found_reply(name: &str, bot: &str) -> (r: String)
    ensures
        r@ == not_found_text(name@, bot@),
{
    let mut s = String::from_str("'");
    s.append(name);
    s.append("' is not a command, try '");
    s.append(bot);
    s.append(": help'");
    s
}

impl<H> ThreadedPlugins<H> {
    /// Decides where `command` goes: a usage hint when it holds nothing but
    /// blanks, a not-found reply to the sender when no handler has the
    /// first token as its name (case-insensitively), and otherwise the
    /// handler of that name with the first token taken off.
    pub fn handle_command(&self, command: PluginCommand, bot_name: &str) -> (r: Route)
        requires
            self.wf(),
        ensures
            match r {
                Route::Usage { target, text } => {
                    &&& all_blank(views_of(command.tokens@))
                    &&& target@ == command.source@
                    &&& text@ == usage_text(bot_name@)
                },
                Route::NotFound { target, text } => {
                    &&& !all_blank(views_of(command.tokens@))
                    &&& command.tokens@.len() > 0
                    &&& !self@.contains_key(lower_of(command.tokens@[0]@))
                    &&& target@ == command.source@
                    &&& text@ == not_found_text(command.tokens@[0]@, bot_name@)
                },
                Route::Run { index, name, command: c } => {
                    &&& !all_blank(views_of(command.tokens@))
                    &&& command.tokens@.len() > 0
                    &&& self@.contains_key(lower_of(command.tokens@[0]@))
                    &&& index < self.names().len()
                    &&& self.names()[index as int] == lower_of(command.tokens@[0]@)
                    &&& self.handlers()[index as int] == self@[lower_of(command.tokens@[0]@)]
                    &&& name@ == command.tokens@[0]@
                    &&& c.source@ == command.source@
                    &&& c.target@ == command.target@
                    &&& views_of(c.tokens@) == views_of(command.tokens@).drop_first()
                },
            },
    {
        if tokens_blank(&command.tokens) {
            return Route::Usage { target: command.source, text: usage_reply(bot_name) };
        }
        assert(command.tokens@.len() > 0);
        let key = lowercase(command.tokens[0].as_str());
        match self.position(&key) {
            None => {
                let text = not_found_reply(command.tokens[0].as_str(), bot_name);
                Route::NotFound { target: command.source, text }
            },
            Some(index) => {
                let mut command = command;
                let ghost before = command.tokens@;
                let name = command.tokens.remove(0);
                proof {
                    assert(views_of(command.tokens@) =~= views_of(before).drop_first());
                }
                Route::Run { index, name, command }
            },
        }
    }
}

/// Each handler of `hs` gave the outcome at its position in `st` for
/// `event`: every one of them ran its fast path on the event.
pub open spec fn ran_fast_paths<H: Plugin>(hs: Seq<H>, event: Event, st: Seq<ExecutionStatus>) -> bool {
    &&& st.len() == hs.len()
    &&& forall|i: int| 0 <= i < hs.len() ==> (#[trigger] hs[i]).fast_path(event, st[i])
}

impl<H: Plugin> ThreadedPlugins<H> {
    /// Shows `event` to every handler on the caller's thread and returns,
    /// handler by handler in registration order, what is left to do with
    /// its outcome. A failing handler has no effect on what the others
    /// are shown or owed.
    pub fn execute_plugins(&self, client: &H::Client, event: &Event) -> (r: Vec<
        Action,
    >)
        requires
            self.wf(),
        ensures
            exists|st: Seq<ExecutionStatus>|
                #[trigger] ran_fast_paths(self.handlers(), *event, st) && actions_view(r@)
                    == plan_spec(self.names(), st),
    {
        let n = self.entries.len();
        let mut names: Vec<String> = Vec::new();
        let mut statuses: Vec<ExecutionStatus> = Vec::new();
        let mut i: usize = 0;
        while i < n
            invariant
                n == self.entries@.len(),
                i <= n,
                names@.len() == i,
                statuses@.len() == i,
                views_of(names@) =~= self.names().take(i as int),
                forall|k: int| 0 <= k < i ==> (#[trigger] self.handlers()[k]).fast_path(*event, statuses@[k]),
            decreases n - i,
        {
            let status = self.entries[i].1.execute(client, event);
            proof {
                assert(self.handlers()[i as int] == self.entries@[i as int].1);
            }
            names.push(self.entries[i].0.clone());
            statuses.push(status);
            i = i + 1;
        }
        proof {
            assert(self.names().take(n as int) =~= self.names());
        }
        let ghost st = statuses@;
        let r = plan_dispatch(&names, statuses);
        proof {
            assert(ran_fast_paths(self.handlers(), *event, st));
        }
        r
    }
}

impl<H: PluginName> ThreadedPlugins<H> {
    /// Registers `plugin` under its own lowercased name, replacing any
    /// handler of that name.
    pub fn add(&mut self, plugin: H)
        requires
            old(self).wf(),
        ensures
            final(self).wf(),
            exists|name: Seq<char>| final(self)@ == old(self)@.insert(lower_of(name), plugin),
            plugin.name_spec() matches Some(n) ==> final(self)@ == old(self)@.insert(
                lower_of(n),
                plugin,
            ),
    {
        let name = plugin.name().to_owned();
        self.insert(name.as_str(), plugin);
    }
}

} // verus!

verus! {

/// Two outcomes that a dispatcher cannot tell apart: the same variant,
/// and for a failure the same error text.
pub open spec fn same_outcome(a: ExecutionStatus, b: ExecutionStatus) -> bool {
    match (a, b) {
        (ExecutionStatus::Done, ExecutionStatus::Done) => true,
        (ExecutionStatus::Failed(e), ExecutionStatus::Failed(f)) => e.text_spec() == f.text_spec(),
        (ExecutionStatus::RequiresThread, ExecutionStatus::RequiresThread) => true,
        _ => false,
    }
}

/// Replaying one event through one snapshot yields the same actions,
/// handler by handler, whenever the handlers report the same outcomes.
pub proof fn lemma_replay_same_actions(
    names: Seq<Seq<char>>,
    a: Seq<ExecutionStatus>,
    b: Seq<ExecutionStatus>,
)
    requires
        a.len() == names.len(),
        b.len() == names.len(),
        forall|i: int| 0 <= i < names.len() ==> same_outcome(#[trigger] a[i], b[i]),
    ensures
        plan_spec(names, a) == plan_spec(names, b),
{
    assert forall|i: int| 0 <= i < names.len() implies #[trigger] plan_spec(names, a)[i] == plan_spec(
        names,
        b,
    )[i] by {
        assert(same_outcome(a[i], b[i]));
    }
    assert(plan_spec(names, a) =~= plan_spec(names, b));
}

/// Every handler of the snapshot gets an action, and what one handler is
/// owed depends on its own outcome alone: another handler's failure
/// changes nothing for it.
pub proof fn lemma_failure_isolated(
    names: Seq<Seq<char>>,
    a: Seq<ExecutionStatus>,
    b: Seq<ExecutionStatus>,
    j: int,
)
    requires
        a.len() == names.len(),
        b.len() == names.len(),
        0 <= j < names.len(),
        a[j] == b[j],
    ensures
        plan_spec(names, a).len() == names.len(),
        plan_spec(names, a)[j] == plan_spec(names, b)[j],
        a[j] is Done ==> plan_spec(names, a)[j] == ActionView::Done,
        forall|i: int|
            0 <= i < names.len() && (#[trigger] a[i]) is Failed ==> plan_spec(names, a)[i] is Log,
{
}

} // verus!

verus! {

/// A handler whose fast path gives, for `event`, only outcomes that a
/// dispatcher cannot tell apart.
pub open spec fn decides_alike<H: Plugin>(h: H, event: Event) -> bool {
    forall|s: ExecutionStatus, t: ExecutionStatus|
        h.fast_path(event, s) && h.fast_path(event, t) ==> #[trigger] same_outcome(s, t)
}

/// Replaying one event through one snapshot yields the same actions,
/// handler by handler, when each handler decides alike on the event: the
/// runs that `execute_plugins` reports for the two replays plan the same.
pub proof fn lemma_replay_through_handlers<H: Plugin>(
    names: Seq<Seq<char>>,
    hs: Seq<H>,
    event: Event,
    a: Seq<ExecutionStatus>,
    b: Seq<ExecutionStatus>,
)
    requires
        names.len() == hs.len(),
        ran_fast_paths(hs, event, a),
        ran_fast_paths(hs, event, b),
        forall|i: int| 0 <= i < hs.len() ==> decides_alike(#[trigger] hs[i], event),
    ensures
        plan_spec(names, a) == plan_spec(names, b),
{
    assert forall|i: int| 0 <= i < names.len() implies same_outcome(#[trigger] a[i], b[i]) by {
        assert(decides_alike(hs[i], event));
        assert(hs[i].fast_path(event, a[i]) && hs[i].fast_path(event, b[i]));
    }
    lemma_replay_same_actions(names, a, b);
}

/// Every handler runs its fast path on the event, whatever the others do:
/// a handler whose fast path only ever finishes the event is owed nothing
/// more, even beside one that fails.
pub proof fn lemma_handler_not_suppressed<H: Plugin>(
    names: Seq<Seq<char>>,
    hs: Seq<H>,
    event: Event,
    st: Seq<ExecutionStatus>,
    j: int,
)
    requires
        names.len() == hs.len(),
        ran_fast_paths(hs, event, st),
        0 <= j < hs.len(),
        forall|s: ExecutionStatus| #[trigger] hs[j].fast_path(event, s) ==> (s is Done),
    ensures
        hs[j].fast_path(event, st[j]),
        plan_spec(names, st)[j] == ActionView::Done,
{
    assert(hs[j].fast_path(event, st[j]));
}

/// The bot: the prefix that addresses it and its registered handlers.
pub struct Bot<'a, H> {
    prefix: &'a str,
    plugins: ThreadedPlugins<H>,
}

impl<'a, H> Bot<'a, H> {
    #[verifier::type_invariant]
    spec fn inv(&self) -> bool {
        self.plugins.wf()
    }

    /// The prefix that addresses the bot.
    pub closed spec fn prefix_spec(&self) -> Seq<char> {
        self.prefix@
    }

    /// The registered handlers, by lowercased name.
    pub closed spec fn handlers_spec(&self) -> Map<Seq<char>, H> {
        self.plugins@
    }

    /// A bot without handlers, addressed by `cmd_prefix`.
    pub fn new(cmd_prefix: &'a str) -> (r: Self)
        ensures
            r.prefix_spec() == cmd_prefix@,
            r.handlers_spec() == Map::<Seq<char>, H>::empty(),
    {
        Bot { prefix: cmd_prefix, plugins: ThreadedPlugins::new() }
    }

    /// Removes the handler registered under the lowercased `name`; `Some`
    /// when there was one.
    pub fn remove_plugin(&mut self, name: &str) -> (r: Option<()>)
        ensures
            r is Some <==> old(self).handlers_spec().contains_key(lower_of(name@)),
            final(self).handlers_spec() == old(self).handlers_spec().remove(lower_of(name@)),
            final(self).prefix_spec() == old(self).prefix_spec(),
    {
        proof {
            use_type_invariant(&*self);
        }
        let mut plugins = ThreadedPlugins::new();
        std::mem::swap(&mut plugins, &mut self.plugins);
        let r = plugins.remove(name);
        self.plugins = plugins;
        r
    }

    /// The prefix that addresses the bot.
    pub fn prefix(&self) -> (r: &str)
        ensures
            r@ == self.prefix_spec(),
    {
        self.prefix
    }

    /// The registered handlers; a clone of them is the snapshot of one
    /// dispatch pass.
    pub fn plugins(&self) -> (r: &ThreadedPlugins<H>)
        ensures
            r.wf(),
            r@ == self.handlers_spec(),
    {
        proof {
            use_type_invariant(self);
        }
        &self.plugins
    }
}

impl<'a, H: PluginName> Bot<'a, H> {
    /// Registers `plugin` under its own lowercased name, replacing any
    /// handler of that name.
    pub fn add_plugin(&mut self, plugin: H)
        ensures
            exists|name: Seq<char>|
                final(self).handlers_spec() == old(self).handlers_spec().insert(
                    lower_of(name),
                    plugin,
                ),
            plugin.name_spec() matches Some(n) ==> final(self).handlers_spec() == old(
                self,
            ).handlers_spec().insert(lower_of(n), plugin),
            final(self).prefix_spec() == old(self).prefix_spec(),
    {
        proof {
            use_type_invariant(&*self);
        }
        let mut plugins = ThreadedPlugins::new();
        std::mem::swap(&mut plugins, &mut self.plugins);
        plugins.add(plugin);
        self.plugins = plugins;
    }
}

} // verus!
