use twitch_chat::callbacks::{command_kind, EventKind, TwitchCallbacks};
use twitch_chat::connection::TwitchConnection;
use twitch_chat::parser::parse_twitch_message;

type Log = Vec<&'static str>;
type Handler = fn(&mut Log);

fn on_any(log: &mut Log) {
    log.push("any");
}

fn on_privmsg(log: &mut Log) {
    log.push("privmsg");
}

fn on_ping(log: &mut Log) {
    log.push("ping");
}

fn on_whisper(log: &mut Log) {
    log.push("whisper");
}

fn run(table: &TwitchCallbacks<Handler>, line: &str) -> Log {
    let message = parse_twitch_message(line);
    let mut log = Log::new();
    for kind in table.dispatch(&message) {
        let handler = table.handler(kind).expect("a dispatched kind has a handler");
        handler(&mut log);
    }
    log
}

#[test]
fn catch_all_runs_before_the_privmsg_handler() {
    let mut table: TwitchCallbacks<Handler> = TwitchCallbacks::new();
    table.register(EventKind::PrivateMessage, on_privmsg);
    table.register(EventKind::AnyMessage, on_any);
    let message = parse_twitch_message(":nick!user@host PRIVMSG #chan :hello");
    assert_eq!(table.dispatch(&message), vec![EventKind::AnyMessage, EventKind::PrivateMessage]);
    assert_eq!(run(&table, ":nick!user@host PRIVMSG #chan :hello"), vec!["any", "privmsg"]);
}

#[test]
fn each_command_has_its_own_handler() {
    let mut table: TwitchCallbacks<Handler> = TwitchCallbacks::new();
    table.register(EventKind::Ping, on_ping);
    table.register(EventKind::PrivateMessage, on_privmsg);
    table.register(EventKind::Whisper, on_whisper);
    assert_eq!(run(&table, ":a!b@c PRIVMSG #d :x"), vec!["privmsg"]);
    assert_eq!(run(&table, ":a!b@c WHISPER d :x"), vec!["whisper"]);
    assert_eq!(run(&table, ":tmi.twitch.tv PING"), vec!["ping"]);
    assert_eq!(run(&table, "PING"), vec!["ping"]);
    assert!(run(&table, ":a!b@c JOIN #d").is_empty());
    assert!(run(&table, "").is_empty());
}

#[test]
fn other_commands_reach_the_catch_all_handler_only() {
    let mut table: TwitchCallbacks<Handler> = TwitchCallbacks::new();
    table.register(EventKind::AnyMessage, on_any);
    table.register(EventKind::PrivateMessage, on_privmsg);
    assert_eq!(run(&table, ":a!b@c JOIN #d"), vec!["any"]);
    assert_eq!(run(&table, ":a!b@c privmsg #d :x"), vec!["any"]);
    assert_eq!(run(&table, ""), vec!["any"]);
}

#[test]
fn a_ping_with_a_trailing_argument_has_the_space_in_its_command() {
    let mut table: TwitchCallbacks<Handler> = TwitchCallbacks::new();
    table.register(EventKind::AnyMessage, on_any);
    table.register(EventKind::Ping, on_ping);
    assert_eq!(run(&table, "PING :tmi.twitch.tv"), vec!["any"]);
    assert_eq!(run(&table, ":tmi.twitch.tv PING :tmi.twitch.tv"), vec!["any", "ping"]);
}

#[test]
fn an_empty_table_dispatches_nothing() {
    let table: TwitchCallbacks<Handler> = TwitchCallbacks::new();
    assert!(run(&table, ":a!b@c PRIVMSG #d :x").is_empty());
    assert!(!table.is_registered(EventKind::Ping));
    assert!(!table.is_registered(EventKind::PrivateMessage));
    assert!(!table.is_registered(EventKind::Whisper));
    assert!(!table.is_registered(EventKind::AnyMessage));
    assert!(table.handler(EventKind::AnyMessage).is_none());
}

#[test]
fn registering_again_replaces_the_handler() {
    let mut table: TwitchCallbacks<Handler> = TwitchCallbacks::new();
    table.register(EventKind::PrivateMessage, on_ping);
    table.register(EventKind::PrivateMessage, on_privmsg);
    assert_eq!(run(&table, ":a!b@c PRIVMSG #d :x"), vec!["privmsg"]);
    assert!(table.is_registered(EventKind::PrivateMessage));
    assert!(!table.is_registered(EventKind::Ping));
}

#[test]
fn each_kind_has_its_own_slot() {
    let mut table: TwitchCallbacks<u32> = TwitchCallbacks::new();
    table.register(EventKind::Ping, 1);
    table.register(EventKind::PrivateMessage, 2);
    table.register(EventKind::Whisper, 3);
    table.register(EventKind::AnyMessage, 4);
    assert_eq!(table.handler(EventKind::Ping), Some(&1));
    assert_eq!(table.handler(EventKind::PrivateMessage), Some(&2));
    assert_eq!(table.handler(EventKind::Whisper), Some(&3));
    assert_eq!(table.handler(EventKind::AnyMessage), Some(&4));
    assert_eq!(table.ping_callback, Some(1));
    assert_eq!(table.privmsg_callback, Some(2));
    assert_eq!(table.whisper_callback, Some(3));
    assert_eq!(table.custom_callback, Some(4));
}

#[test]
fn kinds_of_commands() {
    assert_eq!(command_kind(&"PING".to_string()), Some(EventKind::Ping));
    assert_eq!(command_kind(&"PRIVMSG".to_string()), Some(EventKind::PrivateMessage));
    assert_eq!(command_kind(&"WHISPER".to_string()), Some(EventKind::Whisper));
    assert_eq!(command_kind(&"JOIN".to_string()), None);
    assert_eq!(command_kind(&"PING ".to_string()), None);
    assert_eq!(command_kind(&"".to_string()), None);
    assert_eq!(command_kind(&"ping".to_string()), None);
}

#[test]
fn a_session_dispatches_through_its_own_table() {
    let mut session: TwitchConnection<Handler> = TwitchConnection::new();
    session.register(EventKind::AnyMessage, on_any);
    session.callbacks.register(EventKind::Whisper, on_whisper);
    let message = parse_twitch_message(":a!b@c WHISPER d :psst");
    assert_eq!(session.dispatch(&message), vec![EventKind::AnyMessage, EventKind::Whisper]);
    let mut log = Log::new();
    for kind in session.dispatch(&message) {
        let handler = *session.handler(kind).unwrap();
        handler(&mut log);
    }
    assert_eq!(log, vec!["any", "whisper"]);
}

#[test]
fn the_default_table_is_empty() {
    let table: TwitchCallbacks<Handler> = TwitchCallbacks::default();
    assert!(!table.is_registered(EventKind::AnyMessage));
    assert!(!table.is_registered(EventKind::Ping));
    assert!(run(&table, ":a!b@c PRIVMSG #d :x").is_empty());
}

#[test]
fn a_handler_registered_by_the_catch_all_handler_is_seen_by_the_next_message() {
    let mut session: TwitchConnection<Handler> = TwitchConnection::new();
    session.register(EventKind::AnyMessage, on_any);
    let first = parse_twitch_message(":a!b@c PRIVMSG #d :one");
    assert_eq!(session.dispatch(&first), vec![EventKind::AnyMessage]);
    session.register(EventKind::PrivateMessage, on_privmsg);
    let second = parse_twitch_message(":a!b@c PRIVMSG #d :two");
    assert_eq!(session.dispatch(&second), vec![EventKind::AnyMessage, EventKind::PrivateMessage]);
}
