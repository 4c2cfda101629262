//! Reminder records, the storage contract for them, and a store that
//! keeps them in memory.

use vstd::prelude::*;

use super::error::{fails_with, ErrorKind, RemindError};
use vstd::set_lib::{lemma_int_range, lemma_len_subset, set_int_range};

verus! {

/// A stored reminder as a mathematical value.
pub struct EventRecord {
    pub id: int,
    pub receiver: Seq<char>,
    pub content: Seq<char>,
    pub author: Seq<char>,
    pub time: int,
    pub repeat: Option<int>,
}

pub open spec fn repeat_view(r: Option<i64>) -> Option<int> {
    match r {
        Some(s) => Some(s as int),
        None => None,
    }
}

/// A stored reminder. `time` is when it is due, in seconds since the
/// Unix epoch, UTC; `repeat` is the interval in seconds after which it
/// comes due again.
#[derive(Clone, Debug)]
pub struct Event {
    pub id: i64,
    pub receiver: String,
    pub content: String,
    pub author: String,
    pub time: i64,
    pub repeat: Option<i64>,
}

impl View for Event {
    type V = EventRecord;

    open spec fn view(&self) -> EventRecord {
        EventRecord {
            id: self.id as int,
            receiver: self.receiver@,
            content: self.content@,
            author: self.author@,
            time: self.time as int,
            repeat: repeat_view(self.repeat),
        }
    }
}

impl Event {
    /// A copy of this record.
    pub fn clone_record(&self) -> (r: Event)
        ensures
            r@ == self@,
    {
        Event {
            id: self.id,
            receiver: self.receiver.clone(),
            content: self.content.clone(),
            author: self.author.clone(),
            time: self.time,
            repeat: self.repeat,
        }
    }
}

/// A reminder that is about to be stored.
#[derive(Debug)]
pub struct NewEvent<'a> {
    pub receiver: &'a str,
    pub content: &'a str,
    pub author: &'a str,
    pub time: i64,
    pub repeat: Option<i64>,
}

/// The record that storing `e` under `id` makes.
pub open spec fn record_of(e: NewEvent, id: int) -> EventRecord {
    EventRecord {
        id,
        receiver: e.receiver@,
        content: e.content@,
        author: e.author@,
        time: e.time as int,
        repeat: repeat_view(e.repeat),
    }
}

pub open spec fn has_id(s: Seq<EventRecord>, id: int) -> bool {
    exists|i: int| 0 <= i < s.len() && (#[trigger] s[i]).id == id
}

/// The position of the record with `id`.
pub open spec fn id_index(s: Seq<EventRecord>, id: int) -> int {
    choose|i: int| 0 <= i < s.len() && (#[trigger] s[i]).id == id
}

pub open spec fn ids_unique(s: Seq<EventRecord>) -> bool {
    forall|i: int, j: int| 0 <= i < j < s.len() ==> (#[trigger] s[i]).id != (#[trigger] s[j]).id
}

/// `v` holds exactly the records of `s` that `keep` selects.
pub open spec fn selects(v: Seq<EventRecord>, s: Seq<EventRecord>, keep: spec_fn(EventRecord) -> bool) -> bool {
    &&& forall|i: int| 0 <= i < v.len() ==> s.contains(#[trigger] v[i]) && keep(v[i])
    &&& forall|j: int| 0 <= j < s.len() && keep(#[trigger] s[j]) ==> v.contains(s[j])
}

pub open spec fn event_views(v: Seq<Event>) -> Seq<EventRecord> {
    v.map_values(|e: Event| e@)
}

/// ASCII letters compared without case, everything else exactly (as
/// `str::eq_ignore_ascii_case` does).
pub open spec fn ascii_lower(c: char) -> char {
    if 'A' <= c <= 'Z' {
        ((c as int) + 32) as char
    } else {
        c
    }
}

pub open spec fn eq_ignore_ascii_case(a: Seq<char>, b: Seq<char>) -> bool {
    a.len() == b.len() && forall|i: int| 0 <= i < a.len() ==> ascii_lower(#[trigger] a[i]) == ascii_lower(b[i])
}

/// Whether `a` and `b` are equal but for the case of ASCII letters.
pub fn same_ignoring_ascii_case(a: &str, b: &str) -> (r: bool)
    ensures
        r == eq_ignore_ascii_case(a@, b@),
{
    let n = a.unicode_len();
    if n != b.unicode_len() {
        return false;
    }
    let mut i: usize = 0;
    while i < n
        invariant
            n == a@.len(),
            n == b@.len(),
            i <= n,
            forall|k: int| 0 <= k < i ==> ascii_lower(#[trigger] a@[k]) == ascii_lower(b@[k]),
        decreases n - i,
    {
        let x = a.get_char(i);
        let y = b.get_char(i);
        let lx = if 'A' <= x && x <= 'Z' {
            ((x as u32 + 32) as u8) as char
        } else {
            x
        };
        let ly = if 'A' <= y && y <= 'Z' {
            ((y as u32 + 32) as u8) as char
        } else {
            y
        };
        if lx != ly {
            return false;
        }
        i = i + 1;
    }
    true
}

/// `id` is the least id that no record of `s` has, counting from zero.
pub open spec fn least_free(s: Seq<EventRecord>, id: int) -> bool {
    &&& id >= 0
    &&& !has_id(s, id)
    &&& forall|k: int| 0 <= k < id ==> has_id(s, k)
}

/// Some record of `s` is selected by `keep`.
pub open spec fn any_selected(s: Seq<EventRecord>, keep: spec_fn(EventRecord) -> bool) -> bool {
    exists|j: int| 0 <= j < s.len() && keep(#[trigger] s[j])
}

/// A store of reminders, keyed by id.
pub trait Database {
    /// The stored reminders.
    spec fn events(&self) -> Seq<EventRecord>;

    /// The store answers each call from its records alone: no call fails
    /// for a reason of its own (a lost connection, say).
    spec fn answers(&self) -> bool;

    /// Stores `event` under a new id, which it returns.
    fn insert_event(&mut self, event: &NewEvent) -> (r: Result<i64, RemindError>)
        ensures
            final(self).answers() == old(self).answers(),
            r matches Ok(id) ==> !has_id(old(self).events(), id as int) && final(self).events()
                == old(self).events().push(record_of(*event, id as int)),
            r is Err ==> final(self).events() == old(self).events(),
            old(self).answers() && old(self).events().len() < i64::MAX ==> (r matches Ok(id)
                && least_free(old(self).events(), id as int)),
    ;

    /// Moves the reminder `id` to `time`.
    fn update_event_time(&mut self, id: i64, time: i64) -> (r: Result<(), RemindError>)
        ensures
            final(self).answers() == old(self).answers(),
            r is Ok ==> has_id(old(self).events(), id as int) && {
                let k = id_index(old(self).events(), id as int);
                let e = old(self).events()[k];
                final(self).events() == old(self).events().update(
                    k,
                    EventRecord { time: time as int, ..e },
                )
            },
            r is Err ==> final(self).events() == old(self).events(),
            old(self).answers() && has_id(old(self).events(), id as int) ==> r is Ok,
            old(self).answers() && !has_id(old(self).events(), id as int) ==> fails_with(
                r,
                ErrorKind::NotFound,
            ),
    ;

    /// The reminders due before `time`; `NotFound` when there are none.
    fn get_events_before(&self, time: i64) -> (r: Result<Vec<Event>, RemindError>)
        ensures
            r matches Ok(v) ==> selects(
                event_views(v@),
                self.events(),
                |e: EventRecord| e.time < time,
            ),
            self.answers() ==> (r is Ok <==> any_selected(
                self.events(),
                |e: EventRecord| e.time < time,
            )),
            self.answers() && r is Err ==> fails_with(r, ErrorKind::NotFound),
    ;

    /// The reminders for `user`, whose name is compared without ASCII
    /// case; `NotFound` when there are none.
    fn get_user_events(&self, user: &str) -> (r: Result<Vec<Event>, RemindError>)
        ensures
            r matches Ok(v) ==> selects(
                event_views(v@),
                self.events(),
                |e: EventRecord| eq_ignore_ascii_case(e.receiver, user@),
            ),
            self.answers() ==> (r is Ok <==> any_selected(
                self.events(),
                |e: EventRecord| eq_ignore_ascii_case(e.receiver, user@),
            )),
            self.answers() && r is Err ==> fails_with(r, ErrorKind::NotFound),
    ;

    /// The reminder `id`.
    fn get_event(&self, id: i64) -> (r: Result<Event, RemindError>)
        ensures
            r matches Ok(e) ==> has_id(self.events(), id as int) && e@ == self.events()[id_index(
                self.events(),
                id as int,
            )],
            self.answers() && has_id(self.events(), id as int) ==> r is Ok,
            self.answers() && !has_id(self.events(), id as int) ==> fails_with(
                r,
                ErrorKind::NotFound,
            ),
    ;

    /// Deletes the reminder `id`.
    fn delete_event(&mut self, id: i64) -> (r: Result<(), RemindError>)
        ensures
            final(self).answers() == old(self).answers(),
            r is Ok ==> has_id(old(self).events(), id as int) && final(self).events() == old(
                self,
            ).events().remove(id_index(old(self).events(), id as int)),
            r is Err ==> final(self).events() == old(self).events(),
            old(self).answers() && has_id(old(self).events(), id as int) ==> r is Ok,
            old(self).answers() && !has_id(old(self).events(), id as int) ==> fails_with(
                r,
                ErrorKind::NotFound,
            ),
    ;
}

/// A selection is empty exactly when nothing is selected.
pub proof fn lemma_selected_some(
    v: Seq<EventRecord>,
    s: Seq<EventRecord>,
    keep: spec_fn(EventRecord) -> bool,
)
    requires
        selects(v, s, keep),
    ensures
        v.len() > 0 <==> any_selected(s, keep),
{
    if v.len() > 0 {
        assert(s.contains(v[0]));
        let j = choose|j: int| 0 <= j < s.len() && s[j] == v[0];
        assert(keep(s[j]));
    }
    if any_selected(s, keep) {
        let j = choose|j: int| 0 <= j < s.len() && keep(#[trigger] s[j]);
        assert(v.contains(s[j]));
    }
}

/// With unique ids, the ids 0 up to the number of records cannot all be
/// taken.
proof fn lemma_some_id_free(s: Seq<EventRecord>)
    requires
        ids_unique(s),
    ensures
        exists|k: int| 0 <= k <= s.len() && !has_id(s, k),
{
    if forall|k: int| 0 <= k <= s.len() ==> has_id(s, k) {
        let ids = s.map_values(|e: EventRecord| e.id);
        let range = set_int_range(0, s.len() as int + 1);
        lemma_int_range(0, s.len() as int + 1);
        ids.lemma_cardinality_of_set();
        assert(range.subset_of(ids.to_set())) by {
            assert forall|k: int| range.contains(k) implies ids.to_set().contains(k) by {
                assert(has_id(s, k));
                let j = choose|j: int| 0 <= j < s.len() && (#[trigger] s[j]).id == k;
                assert(ids[j] == k);
            }
        }
        vstd::seq_lib::seq_to_set_is_finite(ids);
        lemma_len_subset(range, ids.to_set());
    }
}

/// Reminders kept in memory, in the order they were added.
pub struct MemoryEvents {
    events: Vec<Event>,
}

impl MemoryEvents {
    #[verifier::type_invariant]
    spec fn inv(&self) -> bool {
        &&& ids_unique(event_views(self.events@))
        &&& self.events@.len() <= i64::MAX
    }

    /// An empty store.
    pub fn new() -> (r: Self)
        ensures
            r.events() == Seq::<EventRecord>::empty(),
            r.answers(),
    {
        let r = MemoryEvents { events: Vec::new() };
        assert(event_views(r.events@) =~= Seq::<EventRecord>::empty());
        r
    }

    fn find(&self, id: i64) -> (r: Option<usize>)
        ensures
            r is None <==> !has_id(self.events(), id as int),
            r matches Some(i) ==> i < self.events().len() && id_index(self.events(), id as int) == i
                && self.events()[i as int].id == id,
    {
        proof {
            use_type_invariant(self);
        }
        let n = self.events.len();
        let mut i: usize = 0;
        while i < n
            invariant
                n == self.events@.len(),
                i <= n,
                ids_unique(event_views(self.events@)),
                forall|j: int| 0 <= j < i ==> (#[trigger] event_views(self.events@)[j]).id != id,
            decreases n - i,
        {
            if self.events[i].id == id {
                proof {
                    let s = event_views(self.events@);
                    assert(s[i as int].id == id);
                    assert(has_id(s, id as int));
                    let k = id_index(s, id as int);
                    assert(0 <= k < s.len() && s[k].id == id);
                    if k != i {
                        if k < i {
                            assert(s[k].id != s[i as int].id);
                        } else {
                            assert(s[i as int].id != s[k].id);
                        }
                    }
                }
                return Some(i);
            }
            i = i + 1;
        }
        None
    }

    fn select_before(&self, time: i64) -> (r: Vec<Event>)
        ensures
            selects(event_views(r@), self.events(), |e: EventRecord| e.time < time),
    {
        let n = self.events.len();
        let mut out: Vec<Event> = Vec::new();
        let mut i: usize = 0;
        let ghost s = event_views(self.events@);
        while i < n
            invariant
                n == self.events@.len(),
                s == event_views(self.events@),
                i <= n,
                forall|k: int| 0 <= k < out@.len() ==> s.contains(#[trigger] event_views(out@)[k]) && event_views(out@)[k].time < time,
                forall|j: int| 0 <= j < i && (#[trigger] s[j]).time < time ==> event_views(out@).contains(s[j]),
            decreases n - i,
        {
            if self.events[i].time < time {
                let e = self.events[i].clone_record();
                let ghost before = event_views(out@);
                out.push(e);
                proof {
                    assert(event_views(out@) =~= before.push(e@));
                    assert(s[i as int] == e@);
                    assert(event_views(out@)[before.len() as int] == s[i as int]);
                    assert forall|j: int| 0 <= j < i && (#[trigger] s[j]).time < time implies event_views(out@).contains(s[j]) by {
                        let w = choose|w: int| 0 <= w < before.len() && before[w] == s[j];
                        assert(event_views(out@)[w] == s[j]);
                    }
                }
            }
            i = i + 1;
        }
        out
    }

    fn select_user(&self, user: &str) -> (r: Vec<Event>)
        ensures
            selects(event_views(r@), self.events(), |e: EventRecord| eq_ignore_ascii_case(e.receiver, user@)),
    {
        let n = self.events.len();
        let mut out: Vec<Event> = Vec::new();
        let mut i: usize = 0;
        let ghost s = event_views(self.events@);
        while i < n
            invariant
                n == self.events@.len(),
                s == event_views(self.events@),
                i <= n,
                forall|k: int| 0 <= k < out@.len() ==> s.contains(#[trigger] event_views(out@)[k]) && eq_ignore_ascii_case(event_views(out@)[k].receiver, user@),
                forall|j: int| 0 <= j < i && eq_ignore_ascii_case((#[trigger] s[j]).receiver, user@) ==> event_views(out@).contains(s[j]),
            decreases n - i,
        {
            if same_ignoring_ascii_case(self.events[i].receiver.as_str(), user) {
                let e = self.events[i].clone_record();
                let ghost before = event_views(out@);
                out.push(e);
                proof {
                    assert(event_views(out@) =~= before.push(e@));
                    assert(s[i as int] == e@);
                    assert(event_views(out@)[before.len() as int] == s[i as int]);
                    assert forall|j: int| 0 <= j < i && eq_ignore_ascii_case((#[trigger] s[j]).receiver, user@) implies event_views(out@).contains(s[j]) by {
                        let w = choose|w: int| 0 <= w < before.len() && before[w] == s[j];
                        assert(event_views(out@)[w] == s[j]);
                    }
                }
            }
            i = i + 1;
        }
        out
    }
}

impl Database for MemoryEvents {
    closed spec fn events(&self) -> Seq<EventRecord> {
        event_views(self.events@)
    }

    /// Memory never fails on its own account.
    closed spec fn answers(&self) -> bool {
        true
    }

    fn insert_event(&mut self, event: &NewEvent) -> (r: Result<i64, RemindError>) {
        proof {
            use_type_invariant(&*self);
        }
        let n = self.events.len();
        if n as u64 >= i64::MAX as u64 {
            return Err(RemindError { kind: ErrorKind::Duplicate });
        }
        let ghost s = event_views(self.events@);
        proof {
            lemma_some_id_free(s);
        }
        let mut id: i64 = 0;
        while self.find(id).is_some()
            invariant
                s == self.events(),
                n == s.len(),
                n < i64::MAX,
                0 <= id <= n,
                exists|k: int| id <= k <= n && !has_id(s, k),
                forall|k: int| 0 <= k < id ==> has_id(s, k),
            decreases n - id,
        {
            proof {
                if id == n {
                    let k = choose|k: int| id <= k <= n && !has_id(s, k);
                    assert(k == id);
                }
            }
            id = id + 1;
        }
        let e = Event {
            id,
            receiver: event.receiver.to_owned(),
            content: event.content.to_owned(),
            author: event.author.to_owned(),
            time: event.time,
            repeat: event.repeat,
        };
        let mut v: Vec<Event> = Vec::new();
        std::mem::swap(&mut v, &mut self.events);
        let ghost before = v@;
        v.push(e);
        proof {
            assert(event_views(v@) =~= event_views(before).push(record_of(*event, id as int)));
            assert forall|a: int, b: int| 0 <= a < b < v@.len() implies (#[trigger] event_views(v@)[a]).id != (#[trigger] event_views(v@)[b]).id by {
                assert(event_views(v@)[a] == event_views(before)[a]);
                if b < before.len() {
                    assert(event_views(v@)[b] == event_views(before)[b]);
                } else {
                    assert(s[a].id != id);
                }
            }
        }
        self.events = v;
        Ok(id)
    }

    fn update_event_time(&mut self, id: i64, time: i64) -> (r: Result<(), RemindError>) {
        proof {
            use_type_invariant(&*self);
        }
        match self.find(id) {
            Some(i) => {
                let mut v: Vec<Event> = Vec::new();
                std::mem::swap(&mut v, &mut self.events);
                let ghost before = v@;
                let mut e = v[i].clone_record();
                e.time = time;
                v.set(i, e);
                proof {
                    let k = id_index(event_views(before), id as int);
                    let old_e = event_views(before)[k];
                    assert(event_views(v@) =~= event_views(before).update(
                        k,
                        EventRecord { time: time as int, ..old_e },
                    ));
                    assert forall|a: int, b: int| 0 <= a < b < v@.len() implies (#[trigger] event_views(v@)[a]).id != (#[trigger] event_views(v@)[b]).id by {
                        assert(event_views(v@)[a].id == event_views(before)[a].id);
                        assert(event_views(v@)[b].id == event_views(before)[b].id);
                    }
                }
                self.events = v;
                Ok(())
            },
            None => Err(RemindError { kind: ErrorKind::NotFound }),
        }
    }

    fn get_events_before(&self, time: i64) -> (r: Result<Vec<Event>, RemindError>) {
        let v = self.select_before(time);
        proof {
            lemma_selected_some(event_views(v@), self.events(), |e: EventRecord| e.time < time);
        }
        if v.len() == 0 {
            Err(RemindError { kind: ErrorKind::NotFound })
        } else {
            Ok(v)
        }
    }

    fn get_user_events(&self, user: &str) -> (r: Result<Vec<Event>, RemindError>) {
        let v = self.select_user(user);
        proof {
            lemma_selected_some(
                event_views(v@),
                self.events(),
                |e: EventRecord| eq_ignore_ascii_case(e.receiver, user@),
            );
        }
        if v.len() == 0 {
            Err(RemindError { kind: ErrorKind::NotFound })
        } else {
            Ok(v)
        }
    }

    fn get_event(&self, id: i64) -> (r: Result<Event, RemindError>) {
        match self.find(id) {
            Some(i) => Ok(self.events[i].clone_record()),
            None => Err(RemindError { kind: ErrorKind::NotFound }),
        }
    }

    fn delete_event(&mut self, id: i64) -> (r: Result<(), RemindError>) {
        proof {
            use_type_invariant(&*self);
        }
        match self.find(id) {
            Some(i) => {
                let mut v: Vec<Event> = Vec::new();
                std::mem::swap(&mut v, &mut self.events);
                let ghost before = v@;
                v.remove(i);
                proof {
                    assert(event_views(v@) =~= event_views(before).remove(i as int));
                    assert forall|a: int, b: int| 0 <= a < b < v@.len() implies (#[trigger] event_views(v@)[a]).id != (#[trigger] event_views(v@)[b]).id by {
                        let a2 = if a < i { a } else { a + 1 };
                        let b2 = if b < i { b } else { b + 1 };
                        assert(event_views(v@)[a] == event_views(before)[a2]);
                        assert(event_views(v@)[b] == event_views(before)[b2]);
                    }
                }
                self.events = v;
                Ok(())
            },
            None => Err(RemindError { kind: ErrorKind::NotFound }),
        }
    }
}

} // verus!
