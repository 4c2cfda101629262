use frippy::factoid::database::{Database, MemoryDatabase, NewFactoid};
use frippy::factoid::error::ErrorKind;
use frippy::factoid::script::{check_hook, invocation, script_reply, HookVerdict, ScriptError};
use frippy::factoid::utils::download;
use frippy::factoid::{bang_command, content_of, wants_thread, Content, Factoid, SubCommand};
use frippy::plugin::{Event, EventKind, PluginCommand};
use frippy::utils::{DownloadError, ErrorKind as DownloadKind, Url};

fn command(tokens: &[&str]) -> PluginCommand {
    PluginCommand {
        source: "alice".to_string(),
        target: "#chan".to_string(),
        tokens: tokens.iter().map(|t| t.to_string()).collect(),
    }
}

fn store() -> Factoid<MemoryDatabase> {
    Factoid::new(MemoryDatabase::new())
}

#[test]
fn three_adds_give_versions_in_order() {
    let mut f = store();
    for (i, text) in ["hello", "hi there", "hey"].iter().enumerate() {
        let mut c = command(&["greet", text]);
        assert_eq!(f.add(&mut c, 100 + i as i64), Ok("Successfully added!"));
    }
    for idx in 0..3 {
        let rec = f.factoids.get_factoid("greet", idx).unwrap();
        assert_eq!(rec.idx, idx);
    }
    assert_eq!(f.factoids.get_factoid("greet", 1).unwrap().content, "hi there");
    assert_eq!(f.get(&command(&["greet"])).unwrap(), "greet: hey");
    let mut c = command(&["greet"]);
    assert_eq!(f.remove(&mut c), Ok("Successfully removed"));
    assert_eq!(f.get(&command(&["greet"])).unwrap(), "greet: hi there");
    assert_eq!(f.get(&command(&["greet", "0"])).unwrap(), "greet: hello");
}

#[test]
fn add_needs_name_and_content() {
    let mut f = store();
    let mut c = command(&["greet"]);
    assert_eq!(f.add(&mut c, 0).unwrap_err().kind, ErrorKind::InvalidCommand);
    assert_eq!(c.tokens, vec!["greet"]);
}

#[test]
fn get_errors() {
    let f = store();
    assert_eq!(f.get(&command(&[])).unwrap_err().kind, ErrorKind::InvalidCommand);
    assert_eq!(f.get(&command(&["nope"])).unwrap_err().kind, ErrorKind::NotFound);
    assert_eq!(f.get(&command(&["nope", "x"])).unwrap_err().kind, ErrorKind::InvalidCommand);
    assert_eq!(f.get(&command(&["nope", "3"])).unwrap_err().kind, ErrorKind::NotFound);
}

#[test]
fn get_puts_content_on_one_line() {
    let mut f = store();
    f.create_factoid("multi", "a\r\nb\nc", "bob", 0).unwrap();
    assert_eq!(f.get(&command(&["multi"])).unwrap(), "multi: a|b|c");
}

#[test]
fn get_cuts_long_content() {
    let mut f = store();
    let long = "x".repeat(600);
    f.create_factoid("long", &long, "bob", 0).unwrap();
    let got = f.get(&command(&["long"])).unwrap();
    assert_eq!(got, format!("long: {}", "x".repeat(512)));
}

#[test]
fn info_counts_versions() {
    let mut f = store();
    assert_eq!(f.info(&command(&[])).unwrap_err().kind, ErrorKind::InvalidCommand);
    assert_eq!(f.info(&command(&["greet"])).unwrap_err().kind, ErrorKind::NotFound);
    f.create_factoid("greet", "a", "bob", 0).unwrap();
    assert_eq!(f.info(&command(&["greet"])).unwrap(), "There is 1 version of greet");
    for _ in 0..11 {
        f.create_factoid("greet", "a", "bob", 0).unwrap();
    }
    assert_eq!(f.info(&command(&["greet"])).unwrap(), "There are 12 versions of greet");
}

#[test]
fn info_names_author_and_time() {
    let mut f = store();
    f.create_factoid("greet", "a", "bob", 86400 + 3661).unwrap();
    assert_eq!(
        f.info(&command(&["greet", "0"])).unwrap(),
        "greet: Added by bob at 1970-01-02 01:01:01 UTC"
    );
    assert_eq!(f.info(&command(&["greet", "zero"])).unwrap_err().kind, ErrorKind::InvalidIndex);
    assert_eq!(f.info(&command(&["greet", "4"])).unwrap_err().kind, ErrorKind::NotFound);
}

#[test]
fn remove_errors() {
    let mut f = store();
    assert_eq!(f.remove(&mut command(&[])).unwrap_err().kind, ErrorKind::InvalidCommand);
    assert_eq!(f.remove(&mut command(&["none"])).unwrap_err().kind, ErrorKind::NotFound);
}

#[test]
fn duplicate_key_is_refused() {
    let mut db = MemoryDatabase::new();
    let nf = NewFactoid { name: "a", idx: 0, content: "x", author: "y", created: 0 };
    assert!(db.insert_factoid(&nf).is_ok());
    assert_eq!(db.insert_factoid(&nf).unwrap_err().kind, ErrorKind::Duplicate);
    assert_eq!(db.count_factoids("a"), Ok(1));
    assert_eq!(db.count_factoids("b"), Ok(0));
    assert_eq!(db.delete_factoid("a", 1).unwrap_err().kind, ErrorKind::NotFound);
    assert!(db.delete_factoid("a", 0).is_ok());
    assert_eq!(db.len(), 0);
}

#[test]
fn from_url_stores_download() {
    let mut f = store();
    let mut c = command(&["page", "http://example.com"]);
    assert_eq!(Factoid::<MemoryDatabase>::url_of(&c).unwrap(), "http://example.com");
    assert_eq!(f.add_from_url(&mut c, Ok("body".to_string()), 5), Ok("Successfully added!"));
    assert_eq!(f.get(&command(&["page"])).unwrap(), "page: body");
    let mut c = command(&["page", "http://example.com"]);
    let failed = Err(DownloadError { kind: DownloadKind::Read, cause: None });
    assert_eq!(f.add_from_url(&mut c, failed, 5).unwrap_err().kind, ErrorKind::Download);
    assert_eq!(f.add_from_url(&mut command(&["x"]), Ok(String::new()), 5).unwrap_err().kind, ErrorKind::InvalidCommand);
}

#[test]
fn exec_plain_literal_and_script() {
    let mut f = store();
    f.create_factoid("plain", "a\nb", "bob", 0).unwrap();
    f.create_factoid("lit", ">>x", "bob", 0).unwrap();
    f.create_factoid("code", ">output[1] = args[1]", "bob", 0).unwrap();
    match f.exec(command(&["plain"])).unwrap() {
        Content::Reply(s) => assert_eq!(s, "a|b"),
        other => panic!("unexpected {:?}", other),
    }
    match f.exec(command(&["lit"])).unwrap() {
        Content::Reply(s) => assert_eq!(s, ">x"),
        other => panic!("unexpected {:?}", other),
    }
    match f.exec(command(&["code", "", "one", "two"])).unwrap() {
        Content::Script(inv) => {
            assert_eq!(inv.name, "code");
            assert_eq!(inv.code, "output[1] = args[1]");
            assert_eq!(inv.args, vec!["one", "two"]);
            assert_eq!(inv.input, " one two");
            assert_eq!(inv.user, "alice");
            assert_eq!(inv.channel, "#chan");
        }
        other => panic!("unexpected {:?}", other),
    }
    assert_eq!(f.exec(command(&[])).unwrap_err().kind, ErrorKind::InvalidIndex);
    assert!(f.exec(command(&["missing"])).is_err());
}

#[test]
fn exec_cuts_reply() {
    let mut f = store();
    f.create_factoid("long", &"y".repeat(500), "bob", 0).unwrap();
    match f.exec(command(&["long"])).unwrap() {
        Content::Reply(s) => assert_eq!(s.chars().count(), 412),
        other => panic!("unexpected {:?}", other),
    }
}

#[test]
fn script_output_is_joined() {
    let out = script_reply(Ok(vec!["a".to_string(), "b".to_string()]));
    assert_eq!(out, "a|b");
    assert_eq!(script_reply(Ok(vec![])), "");
}

#[test]
fn script_limits_give_fixed_messages() {
    assert_eq!(script_reply(Err(ScriptError::Memory)), "memory error: Factoid used over 1 MiB of ram");
    assert_eq!(script_reply(Err(ScriptError::Timeout)), "Factoid timed out after 30 seconds");
    assert_eq!(script_reply(Err(ScriptError::Runtime("bad\nthing".to_string()))), "bad|thing");
}

#[test]
fn hook_aborts_after_timeout() {
    assert_eq!(check_hook(0), HookVerdict::Continue);
    assert_eq!(check_hook(30000), HookVerdict::Continue);
    assert_eq!(check_hook(30001), HookVerdict::Abort);
}

#[test]
fn invocation_filters_empty_args() {
    let inv = invocation("n", "code", &command(&["a", "", "b"]));
    assert_eq!(inv.args, vec!["a", "b"]);
    assert_eq!(inv.input, "a  b");
}

#[test]
fn bang_messages() {
    let e = Event {
        kind: EventKind::Message,
        source: "alice".to_string(),
        reply_target: "#chan".to_string(),
        text: "!greet bob".to_string(),
    };
    assert!(wants_thread(&e));
    let c = bang_command(&e).unwrap();
    assert_eq!(c.tokens, vec!["greet", "bob"]);
    let plain = Event { text: "greet".to_string(), ..e.clone() };
    assert!(!wants_thread(&plain));
    assert!(bang_command(&plain).is_none());
    let join = Event { kind: EventKind::Join, ..e };
    assert!(!wants_thread(&join));
}

#[test]
fn sub_commands() {
    assert_eq!(SubCommand::from_word("add"), Some(SubCommand::Add));
    assert_eq!(SubCommand::from_word("fromurl"), Some(SubCommand::FromUrl));
    assert_eq!(SubCommand::from_word("help"), Some(SubCommand::Help));
    assert_eq!(SubCommand::from_word("Add"), None);
}

#[test]
fn download_failure_messages() {
    let url = Url::new("http://x").max_kib(1024);
    assert_eq!(download(&url, Ok("b".to_string())), Ok("b".to_string()));
    let conn = DownloadError { kind: DownloadKind::Connection, cause: Some("refused".to_string()) };
    assert_eq!(download(&url, Err(conn)), Err("Failed to download http://x - refused".to_string()));
    let limit = DownloadError { kind: DownloadKind::DownloadLimit, cause: None };
    assert_eq!(
        download(&url, Err(limit)),
        Err("Failed to download http://x - Reached download limit".to_string())
    );
}

#[test]
fn url_limits() {
    let url = Url::new("http://x");
    assert!(!url.exceeds_limit(usize::MAX));
    let url = url.max_kib(1);
    assert_eq!(url.size_limit(), Some(1));
    assert!(!url.exceeds_limit(1024));
    assert!(url.exceeds_limit(1025));
    let url = url.timeout(std::time::Duration::from_secs(3));
    assert_eq!(url.duration_limit(), Some(std::time::Duration::from_secs(3)));
    assert_eq!(url.as_str(), "http://x");
    let from: Url = Url::from("http://y".to_string());
    assert_eq!(from.as_str(), "http://y");
}

#[test]
fn exec_cuts_at_byte_boundary() {
    let mut f = store();
    let text = format!("{}é", "a".repeat(411));
    f.create_factoid("wide", &text, "bob", 0).unwrap();
    match f.exec(command(&["wide"])).unwrap() {
        Content::Reply(s) => assert_eq!(s, "a".repeat(411)),
        other => panic!("unexpected {:?}", other),
    }
}

#[test]
fn get_cuts_at_byte_boundary() {
    let mut f = store();
    let text = format!("{}é", "b".repeat(511));
    f.create_factoid("wide", &text, "bob", 0).unwrap();
    assert_eq!(f.get(&command(&["wide"])).unwrap(), format!("wide: {}", "b".repeat(511)));
}

#[test]
fn exec_missing_name_is_not_found() {
    let f = store();
    assert_eq!(f.exec(command(&["nothing"])).unwrap_err().kind, ErrorKind::NotFound);
    let mut f = store();
    assert_eq!(f.remove(&mut command(&["nothing"])).unwrap_err().kind, ErrorKind::NotFound);
}

#[test]
fn content_of_each_marker() {
    let c = command(&["x", "y"]);
    match content_of("n", "plain", &c) {
        Content::Reply(s) => assert_eq!(s, "plain"),
        other => panic!("unexpected {:?}", other),
    }
    match content_of("n", ">>lit", &c) {
        Content::Reply(s) => assert_eq!(s, ">lit"),
        other => panic!("unexpected {:?}", other),
    }
    match content_of("n", ">code", &c) {
        Content::Script(inv) => {
            assert_eq!(inv.code, "code");
            assert_eq!(inv.args, vec!["x", "y"]);
        }
        other => panic!("unexpected {:?}", other),
    }
}

#[test]
fn newest_is_highest_version_after_a_gap() {
    let mut f = store();
    for text in ["v0", "v1", "v2"] {
        f.create_factoid("g", text, "bob", 0).unwrap();
    }
    assert!(f.factoids.delete_factoid("g", 0).is_ok());
    assert_eq!(f.factoids.latest_version("g"), Ok(Some(2)));
    assert_eq!(f.get(&command(&["g"])).unwrap(), "g: v2");
    match f.exec(command(&["g"])).unwrap() {
        Content::Reply(s) => assert_eq!(s, "v2"),
        other => panic!("unexpected {:?}", other),
    }
    assert_eq!(f.remove(&mut command(&["g"])), Ok("Successfully removed"));
    assert_eq!(f.get(&command(&["g"])).unwrap(), "g: v1");
    assert_eq!(f.factoids.latest_version("none"), Ok(None));
}
