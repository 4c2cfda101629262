use frippy::bot::{classify, plan_dispatch, Action, Bot, Route, ThreadedPlugins};
use frippy::error::{log_error, ErrorKind, FrippyError};
use frippy::plugin::{Event, EventKind, ExecutionStatus, Plugin, PluginCommand, PluginName};

#[derive(Clone, Debug)]
struct Fixed {
    name: &'static str,
    outcome: u8,
}

impl PluginName for Fixed {
    fn name(&self) -> &str {
        self.name
    }
}

impl Plugin for Fixed {
    type Client = ();

    fn execute(&self, _: &(), _: &Event) -> ExecutionStatus {
        match self.outcome {
            0 => ExecutionStatus::Done,
            1 => ExecutionStatus::Failed(FrippyError {
                kind: ErrorKind::Connection,
                causes: vec!["socket closed".to_string()],
            }),
            _ => ExecutionStatus::RequiresThread,
        }
    }

    fn execute_threaded(&self, _: &(), _: &Event) -> Result<(), FrippyError> {
        Ok(())
    }

    fn command(&self, _: &(), _: PluginCommand) -> Result<(), FrippyError> {
        Ok(())
    }

    fn evaluate(&self, _: &(), _: PluginCommand) -> Result<String, String> {
        Ok(String::new())
    }
}

fn message(text: &str) -> Event {
    Event {
        kind: EventKind::Message,
        source: "alice".to_string(),
        reply_target: "#chan".to_string(),
        text: text.to_string(),
    }
}

fn command(tokens: &[&str]) -> PluginCommand {
    PluginCommand {
        source: "alice".to_string(),
        target: "#chan".to_string(),
        tokens: tokens.iter().map(|t| t.to_string()).collect(),
    }
}

#[test]
fn parse_addressed_by_name() {
    let c = PluginCommand::try_from("frippy", &message("frippy: help me")).unwrap();
    assert_eq!(c.tokens, vec!["help", "me"]);
    assert_eq!(c.source, "alice");
    assert_eq!(c.target, "#chan");
}

#[test]
fn parse_is_case_insensitive() {
    let c = PluginCommand::try_from("frippy", &message("FRIPPY, tell bob hi")).unwrap();
    assert_eq!(c.tokens, vec!["tell", "bob", "hi"]);
}

#[test]
fn parse_name_without_punctuation() {
    let c = PluginCommand::try_from("frippy", &message("frippy help")).unwrap();
    assert_eq!(c.tokens, vec!["help"]);
}

#[test]
fn parse_keeps_empty_segments() {
    let c = PluginCommand::try_from("frippy", &message("frippy:  a")).unwrap();
    assert_eq!(c.tokens, vec!["", "a"]);
}

#[test]
fn parse_rejects_other_suffix() {
    assert!(PluginCommand::try_from("frippy", &message("frippyx help")).is_none());
    assert!(PluginCommand::try_from("frippy", &message("frippy! help")).is_none());
}

#[test]
fn parse_rejects_missing_prefix() {
    assert!(PluginCommand::try_from("frippy", &message("hello frippy")).is_none());
    assert!(PluginCommand::try_from("frippy", &message("")).is_none());
}

#[test]
fn parse_only_messages() {
    let mut e = message("frippy: help");
    e.kind = EventKind::Join;
    assert!(PluginCommand::try_from("frippy", &e).is_none());
}

#[test]
fn registry_add_get_remove() {
    let mut plugins = ThreadedPlugins::new();
    plugins.add(Fixed { name: "Echo", outcome: 0 });
    assert_eq!(plugins.len(), 1);
    assert!(plugins.get("ECHO").is_some());
    assert!(plugins.get("other").is_none());
    plugins.add(Fixed { name: "echo", outcome: 2 });
    assert_eq!(plugins.len(), 1);
    assert_eq!(plugins.get("Echo").unwrap().outcome, 2);
    plugins.add(Fixed { name: "Help", outcome: 0 });
    assert_eq!(plugins.names_text(), "echo, help");
    assert_eq!(plugins.remove("help"), Some(()));
    assert_eq!(plugins.remove("eChO"), Some(()));
    assert_eq!(plugins.remove("echo"), None);
    assert_eq!(plugins.len(), 0);
}

#[test]
fn failing_handler_does_not_suppress_others() {
    let mut plugins = ThreadedPlugins::new();
    plugins.add(Fixed { name: "A", outcome: 1 });
    plugins.add(Fixed { name: "B", outcome: 0 });
    plugins.add(Fixed { name: "C", outcome: 2 });
    let actions = plugins.execute_plugins(&(), &message("hi"));
    assert_eq!(actions.len(), 3);
    match &actions[0] {
        Action::Log(line) => assert_eq!(line, "a: A connection error occured: socket closed"),
        other => panic!("unexpected {:?}", other),
    }
    assert!(matches!(actions[1], Action::Done));
    assert!(matches!(actions[2], Action::Spawn));
}

#[test]
fn replay_gives_same_actions() {
    let mut plugins = ThreadedPlugins::new();
    plugins.add(Fixed { name: "A", outcome: 1 });
    plugins.add(Fixed { name: "B", outcome: 2 });
    let snapshot = plugins.clone();
    let first = snapshot.execute_plugins(&(), &message("x"));
    let second = snapshot.execute_plugins(&(), &message("x"));
    assert_eq!(format!("{:?}", first), format!("{:?}", second));
}

#[test]
fn classify_each_outcome() {
    assert!(matches!(classify("x", ExecutionStatus::Done), Action::Done));
    assert!(matches!(classify("x", ExecutionStatus::RequiresThread), Action::Spawn));
    let e = FrippyError { kind: ErrorKind::Tell, causes: vec![] };
    match classify("tell", ExecutionStatus::Failed(e)) {
        Action::Log(line) => assert_eq!(line, "tell: A Tell error has occured"),
        other => panic!("unexpected {:?}", other),
    }
}

#[test]
fn plan_keeps_order() {
    let names = vec!["a".to_string(), "b".to_string()];
    let actions = plan_dispatch(&names, vec![ExecutionStatus::RequiresThread, ExecutionStatus::Done]);
    assert!(matches!(actions[0], Action::Spawn));
    assert!(matches!(actions[1], Action::Done));
}

#[test]
fn log_error_joins_causes() {
    let e = FrippyError {
        kind: ErrorKind::Url,
        causes: vec!["timeout".to_string(), "dns".to_string()],
    };
    assert_eq!(log_error(&e), "A Url error has occured: timeout: dns");
    let bare = FrippyError { kind: ErrorKind::Factoid, causes: vec![] };
    assert_eq!(log_error(&bare), "A Factoid error has occured");
}

#[test]
fn route_to_registered_handler() {
    let mut plugins = ThreadedPlugins::new();
    plugins.add(Fixed { name: "Echo", outcome: 0 });
    match plugins.handle_command(command(&["echo", "x"]), "frippy") {
        Route::Run { index, name, command } => {
            assert_eq!(index, 0);
            assert_eq!(name, "echo");
            assert_eq!(command.tokens, vec!["x"]);
            assert_eq!(command.source, "alice");
            let (key, handler) = plugins.entry(index);
            assert_eq!(key, "echo");
            assert_eq!(handler.name, "Echo");
        }
        other => panic!("unexpected {:?}", other),
    }
}

#[test]
fn route_unknown_replies_not_found() {
    let mut plugins = ThreadedPlugins::new();
    plugins.add(Fixed { name: "Echo", outcome: 0 });
    match plugins.handle_command(command(&["doesnotexist"]), "frippy") {
        Route::NotFound { target, text } => {
            assert_eq!(target, "alice");
            assert_eq!(text, "'doesnotexist' is not a command, try 'frippy: help'");
        }
        other => panic!("unexpected {:?}", other),
    }
}

#[test]
fn route_blank_gives_usage() {
    let plugins: ThreadedPlugins<Fixed> = ThreadedPlugins::new();
    for tokens in [vec![], vec!["", "\t"], vec!["\u{c}", "\u{a0}\u{3000}"]] {
        match plugins.handle_command(command(&tokens), "frippy") {
            Route::Usage { target, text } => {
                assert_eq!(target, "alice");
                assert_eq!(text, "usage: frippy: <command> [arguments], try 'frippy: help'");
            }
            other => panic!("unexpected {:?}", other),
        }
    }
}

#[test]
fn bot_add_and_remove_plugin() {
    let mut bot = Bot::new("frippy");
    assert_eq!(bot.prefix(), "frippy");
    bot.add_plugin(Fixed { name: "Help", outcome: 0 });
    assert!(bot.plugins().get("help").is_some());
    assert_eq!(bot.remove_plugin("Help"), Some(()));
    assert_eq!(bot.remove_plugin("Help"), None);
}
