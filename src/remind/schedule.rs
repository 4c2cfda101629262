//! The decisions of the reminder scheduler: which reminders to deliver on
//! waking, what becomes of each after delivery, and how long to sleep.

use vstd::prelude::*;

use super::database::{Event, EventRecord, event_views};

verus! {

/// How far ahead the scheduler looks, and how long it sleeps at most, in
/// seconds.
pub const LOOK_AHEAD_SECS: i64 = 120;

/// What becomes of a reminder once it was delivered.
#[derive(Clone, Copy, Debug, PartialEq, Eq, Structural)]
pub enum AfterSend {
    /// A repeating reminder comes due again at this time.
    Reschedule(i64),
    /// A reminder that does not repeat is deleted.
    Delete,
}

/// A reminder to deliver now.
#[derive(Clone, Debug)]
pub struct Due {
    pub id: i64,
    /// Who gets the notice.
    pub receiver: String,
    /// The notice.
    pub text: String,
    /// What to do once the notice went out.
    pub after: AfterSend,
}

/// A delivery as a mathematical value.
pub struct DueView {
    pub id: int,
    pub receiver: Seq<char>,
    pub text: Seq<char>,
    pub after: AfterSend,
}

impl View for Due {
    type V = DueView;

    open spec fn view(&self) -> DueView {
        DueView { id: self.id as int, receiver: self.receiver@, text: self.text@, after: self.after }
    }
}

/// What the scheduler does on one wake.
#[derive(Clone, Debug)]
pub struct WakePlan {
    /// The reminders to deliver, in the order they were listed.
    pub due: Vec<Due>,
    /// How long to sleep afterwards, in seconds.
    pub sleep_secs: i64,
}

/// The notice of a reminder.
pub open spec fn reminder_text(author: Seq<char>, content: Seq<char>) -> Seq<char> {
    "Reminder from "@ + author + ": "@ + content
}

/// A repeating reminder is moved on by its interval; one that does not
/// repeat, or whose next time would not fit in an `i64`, is deleted.
pub open spec fn after_spec(e: EventRecord) -> AfterSend {
    match e.repeat {
        Some(r) => if i64::MIN <= e.time + r <= i64::MAX {
            AfterSend::Reschedule((e.time + r) as i64)
        } else {
            AfterSend::Delete
        },
        None => AfterSend::Delete,
    }
}

/// The deliveries owed at `now`: each listed reminder that is due.
pub open spec fn due_spec(events: Seq<EventRecord>, now: int) -> Seq<DueView>
    decreases events.len(),
{
    if events.len() == 0 {
        Seq::empty()
    } else {
        let prev = due_spec(events.drop_last(), now);
        let e = events.last();
        if e.time <= now {
            prev.push(
                DueView {
                    id: e.id,
                    receiver: e.receiver,
                    text: reminder_text(e.author, e.content),
                    after: after_spec(e),
                },
            )
        } else {
            prev
        }
    }
}

/// The sleep after a wake at `now`: the look-ahead, cut to one second past
/// a reminder that comes due sooner, reminder by reminder.
pub open spec fn sleep_spec(events: Seq<EventRecord>, now: int) -> int
    decreases events.len(),
{
    if events.len() == 0 {
        LOOK_AHEAD_SECS as int
    } else {
        let prev = sleep_spec(events.drop_last(), now);
        let e = events.last();
        if e.time > now && e.time - now < prev {
            e.time - now + 1
        } else {
            prev
        }
    }
}

proof fn lemma_sleep_bounds(events: Seq<EventRecord>, now: int)
    ensures
        1 <= sleep_spec(events, now) <= LOOK_AHEAD_SECS,
    decreases events.len(),
{
    if events.len() > 0 {
        lemma_sleep_bounds(events.drop_last(), now);
    }
}

pub open spec fn due_views(v: Seq<Due>) -> Seq<DueView> {
    v.map_values(|d: Due| d@)
}

/// The bound of the store query on waking at `now`: the reminders due
/// within the look-ahead.
pub fn query_bound(now: i64) -> (r: i64)
    ensures
        r == (if now <= i64::MAX - LOOK_AHEAD_SECS {
            now + LOOK_AHEAD_SECS
        } else {
            i64::MAX as int
        }),
{
    if now <= i64::MAX - LOOK_AHEAD_SECS {
        now + LOOK_AHEAD_SECS
    } else {
        i64::MAX
    }
}

/// Plans one wake at `now` over the reminders that the store listed.
pub fn plan_wake(events: &Vec<Event>, now: i64) -> (r: WakePlan)
    ensures
        due_views(r.due@) == due_spec(event_views(events@), now as int),
        r.sleep_secs == sleep_spec(event_views(events@), now as int),
        1 <= r.sleep_secs <= LOOK_AHEAD_SECS,
{
    let ghost s = event_views(events@);
    let n = events.len();
    let mut due: Vec<Due> = Vec::new();
    let mut sleep: i64 = LOOK_AHEAD_SECS;
    let mut i: usize = 0;
    while i < n
        invariant
            n == events@.len(),
            s == event_views(events@),
            i <= n,
            due_views(due@) == due_spec(s.take(i as int), now as int),
            sleep as int == sleep_spec(s.take(i as int), now as int),
        decreases n - i,
    {
        proof {
            assert(s.take(i as int + 1).drop_last() =~= s.take(i as int));
            assert(s.take(i as int + 1).last() == events@[i as int]@);
            lemma_sleep_bounds(s.take(i as int), now as int);
        }
        let e = &events[i];
        if e.time <= now {
            let mut text = String::from_str("Reminder from ");
            text.append(e.author.as_str());
            text.append(": ");
            text.append(e.content.as_str());
            let after = match e.repeat {
                Some(r) => match e.time.checked_add(r) {
                    Some(t) => AfterSend::Reschedule(t),
                    None => AfterSend::Delete,
                },
                None => AfterSend::Delete,
            };
            let d = Due { id: e.id, receiver: e.receiver.clone(), text, after };
            let ghost before = due@;
            due.push(d);
            proof {
                assert(due_views(due@) =~= due_views(before).push(d@));
            }
        } else {
            let until = (e.time as i128) - (now as i128);
            if until < sleep as i128 {
                sleep = (until + 1) as i64;
            }
        }
        i = i + 1;
    }
    proof {
        assert(s.take(n as int) =~= s);
        lemma_sleep_bounds(s, now as int);
    }
    WakePlan { due, sleep_secs: sleep }
}

} // verus!
