use frippy::plugin::PluginCommand;
use frippy::remind::database::{Database, Event, MemoryEvents, NewEvent};
use frippy::remind::error::ErrorKind;
use frippy::remind::parser::CommandParser;
use frippy::remind::schedule::{plan_wake, query_bound, AfterSend};
use frippy::remind::{signed_decimal_text, Remind, RemindCommand};

// 2021-03-04 10:00:00 UTC
const NOW: i64 = 1614852000;

fn tokens(s: &str) -> Vec<String> {
    s.split(' ').map(|t| t.to_string()).collect()
}

fn command(source: &str, s: &str) -> PluginCommand {
    PluginCommand {
        source: source.to_string(),
        target: "#chan".to_string(),
        tokens: if s.is_empty() { vec![] } else { tokens(s) },
    }
}

fn parse(s: &str) -> CommandParser {
    CommandParser::with_target(tokens(s), "me".to_string()).unwrap()
}

#[test]
fn time_in_duration() {
    assert_eq!(parse("to x in 5 minutes").get_time(120, NOW), Ok(NOW + 300));
    assert_eq!(parse("to x in 1m").get_time(120, NOW).unwrap_err().kind, ErrorKind::TimeShort);
    assert_eq!(parse("to x in soon").get_time(120, NOW).unwrap_err().kind, ErrorKind::InvalidTime);
}

#[test]
fn time_on_date_at_time() {
    // 2022-01-02 16:30 UTC
    assert_eq!(parse("to x on 2.1.2022 at 16:30").get_time(120, NOW), Ok(1641141000));
    assert_eq!(parse("to x on 2.1.2022").get_time(120, NOW), Ok(1641081600));
}

#[test]
fn time_date_without_year_moves_to_next_year() {
    // 1 March has passed on 4 March 2021: 2022-03-01 00:00 UTC
    assert_eq!(parse("to x on 1.3").get_time(120, NOW), Ok(1646092800));
    // 5 March is still ahead: 2021-03-05 00:00 UTC
    assert_eq!(parse("to x on 5.3").get_time(120, NOW), Ok(1614902400));
}

#[test]
fn time_today_or_tomorrow() {
    // 12:00 today
    assert_eq!(parse("to x at 12:00").get_time(120, NOW), Ok(NOW + 7200));
    // 09:00 has passed: tomorrow
    assert_eq!(parse("to x at 9:00").get_time(120, NOW), Ok(NOW + 82800));
}

#[test]
fn time_errors() {
    let kind = |s: &str| parse(s).get_time(120, NOW).unwrap_err().kind;
    assert_eq!(kind("to x at 25:00"), ErrorKind::InvalidTime);
    assert_eq!(kind("to x at 12"), ErrorKind::InvalidTime);
    assert_eq!(kind("to x on 31.2.2021"), ErrorKind::InvalidDate);
    assert_eq!(kind("to x on 1"), ErrorKind::InvalidDate);
    assert_eq!(kind("to x on a.b"), ErrorKind::InvalidDate);
}

#[test]
fn repeat_intervals() {
    assert_eq!(parse("to x in 5m every week").get_repeat(300), Ok(Some(604800)));
    assert_eq!(parse("to x in 5m every 2 hours").get_repeat(300), Ok(Some(7200)));
    assert_eq!(parse("to x in 5m").get_repeat(300), Ok(None));
    assert_eq!(parse("to x in 5m every minute").get_repeat(300).unwrap_err().kind, ErrorKind::RepeatTimeShort);
    assert_eq!(parse("to x in 5m every blah").get_repeat(300).unwrap_err().kind, ErrorKind::InvalidTime);
}

#[test]
fn set_list_delete() {
    let mut r = Remind::new(MemoryEvents::new());
    let reply = r.user_cmd(command("alice", "bob to buy milk in 10 minutes"), NOW).unwrap();
    assert_eq!(reply, "Created reminder with id 0 at 2021-03-04 10:10:00 UTC");
    let reply = r.me_cmd(command("alice", "to call bob on 5.3.2021 at 8:15"), NOW).unwrap();
    assert_eq!(reply, "Created reminder with id 1 at 2021-03-05 08:15:00 UTC");
    assert_eq!(
        r.list("BOB").unwrap(),
        "0: alice reminds bob to \"buy milk\" at 2021-03-04 10:10:00"
    );
    assert_eq!(r.list("carol").unwrap_err().kind, ErrorKind::NotFound);
    assert_eq!(r.delete(command("carol", "0")), Ok("Only the author or receiver can delete a reminder"));
    assert_eq!(r.delete(command("Bob", "0")), Ok("Successfully deleted"));
    assert_eq!(r.delete(command("bob", "0")).unwrap_err().kind, ErrorKind::NotFound);
    assert_eq!(r.delete(command("bob", "x")).unwrap_err().kind, ErrorKind::Parsing);
    assert_eq!(r.delete(command("bob", "")).unwrap_err().kind, ErrorKind::InvalidCommand);
    assert_eq!(r.user_cmd(command("alice", ""), NOW).unwrap_err().kind, ErrorKind::MissingReceiver);
}

#[test]
fn remind_sub_commands() {
    assert_eq!(RemindCommand::from_word("me"), Some(RemindCommand::Me));
    assert_eq!(RemindCommand::from_word("list"), Some(RemindCommand::List));
    assert_eq!(RemindCommand::from_word("later"), None);
}

#[test]
fn signed_decimals() {
    assert_eq!(signed_decimal_text(-42), "-42");
    assert_eq!(signed_decimal_text(i64::MIN), "-9223372036854775808");
    assert_eq!(signed_decimal_text(7), "7");
}

#[test]
fn memory_events_store() {
    let mut db = MemoryEvents::new();
    let e = NewEvent { receiver: "bob", content: "x", author: "al", time: 50, repeat: None };
    assert_eq!(db.insert_event(&e), Ok(0));
    let e2 = NewEvent { receiver: "Bob", content: "y", author: "al", time: 500, repeat: Some(60) };
    assert_eq!(db.insert_event(&e2), Ok(1));
    assert_eq!(db.get_events_before(100).unwrap().len(), 1);
    assert_eq!(db.get_events_before(10).unwrap_err().kind, ErrorKind::NotFound);
    assert_eq!(db.get_user_events("BOB").unwrap().len(), 2);
    assert!(db.update_event_time(1, 20).is_ok());
    assert_eq!(db.get_event(1).unwrap().time, 20);
    assert_eq!(db.update_event_time(9, 20).unwrap_err().kind, ErrorKind::NotFound);
    assert!(db.delete_event(0).is_ok());
    assert_eq!(db.get_event(0).unwrap_err().kind, ErrorKind::NotFound);
}

fn event(id: i64, time: i64, repeat: Option<i64>) -> Event {
    Event {
        id,
        receiver: "bob".to_string(),
        content: format!("c{}", id),
        author: "al".to_string(),
        time,
        repeat,
    }
}

#[test]
fn wake_plan_delivers_due_and_sleeps_until_next() {
    let events = vec![
        event(1, 100, None),
        event(2, 130, None),
        event(3, 90, Some(60)),
        event(4, 110, None),
    ];
    let plan = plan_wake(&events, 100);
    assert_eq!(plan.due.len(), 2);
    assert_eq!(plan.due[0].id, 1);
    assert_eq!(plan.due[0].text, "Reminder from al: c1");
    assert_eq!(plan.due[0].after, AfterSend::Delete);
    assert_eq!(plan.due[1].id, 3);
    assert_eq!(plan.due[1].after, AfterSend::Reschedule(150));
    assert_eq!(plan.sleep_secs, 11);
}

#[test]
fn wake_plan_without_events_sleeps_look_ahead() {
    let plan = plan_wake(&vec![], 0);
    assert!(plan.due.is_empty());
    assert_eq!(plan.sleep_secs, 120);
    assert_eq!(query_bound(10), 130);
    assert_eq!(query_bound(i64::MAX - 1), i64::MAX);
    let overflow = plan_wake(&vec![event(1, i64::MAX - 1, Some(10))], i64::MAX);
    assert_eq!(overflow.due[0].after, AfterSend::Delete);
}

#[test]
fn durations_with_too_many_digits_are_refused() {
    let kind = |s: &str| parse(s).get_time(120, NOW).unwrap_err().kind;
    assert_eq!(kind("to x in 18446744073709551615s 1000000000ns"), ErrorKind::InvalidTime);
    assert_eq!(kind("to x in 12345678901234567 seconds"), ErrorKind::InvalidTime);
    assert_eq!(parse("to x in 100000000000ms").get_time(120, NOW), Ok(NOW + 100000000));
    assert_eq!(
        parse("to x in 5m every 18446744073709551615s 1000000000ns").get_repeat(300).unwrap_err().kind,
        ErrorKind::InvalidTime
    );
}

#[test]
fn memory_events_reuse_least_free_id() {
    let mut db = MemoryEvents::new();
    let e = NewEvent { receiver: "bob", content: "x", author: "al", time: 50, repeat: None };
    assert_eq!(db.insert_event(&e), Ok(0));
    assert_eq!(db.insert_event(&e), Ok(1));
    assert_eq!(db.insert_event(&e), Ok(2));
    assert!(db.delete_event(1).is_ok());
    assert_eq!(db.insert_event(&e), Ok(1));
    assert_eq!(db.insert_event(&e), Ok(3));
}
