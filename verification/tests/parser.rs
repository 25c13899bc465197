use twitch_chat::message::{Context, IRCMessage};
use twitch_chat::parser::{parse_context, parse_twitch_message};
use twitch_chat::text::split_once;

fn fields(m: &IRCMessage) -> (&str, &str, &str, &str, &str) {
    (
        m.tags.as_str(),
        m.context.sender.as_str(),
        m.context.command.as_str(),
        m.context.receiver.as_str(),
        m.message.as_str(),
    )
}

#[test]
fn prefixed_privmsg_round_trip() {
    let m = parse_twitch_message(":nick!user@host PRIVMSG #chan :hello");
    assert_eq!(m.context.sender, "nick");
    assert_eq!(m.context.command, "PRIVMSG");
    assert_eq!(m.context.receiver, "#chan");
    assert_eq!(m.message, "hello");
    assert_eq!(m.tags, "");
}

#[test]
fn round_trip_over_several_lines() {
    let nicks = ["a", "some_user", "x1"];
    let targets = ["#chan", "#other_channel", "someone"];
    let bodies = ["hello", "", "with : colons :: inside", "two  spaces", "!Ciao"];
    for nick in nicks {
        for target in targets {
            for body in bodies {
                let line = format!(":{}!{}@{}.tmi.twitch.tv PRIVMSG {} :{}", nick, nick, nick, target, body);
                let m = parse_twitch_message(&line);
                assert_eq!(fields(&m), ("", nick, "PRIVMSG", target, body));
            }
        }
    }
}

#[test]
fn body_keeps_its_colons() {
    let m = parse_twitch_message(":n!u@h PRIVMSG #c :a:b:c");
    assert_eq!(fields(&m), ("", "n", "PRIVMSG", "#c", "a:b:c"));
}

#[test]
fn tags_are_kept_raw() {
    let m = parse_twitch_message("@badges=;color=#FF0000 :n!u@h PRIVMSG #c :hi");
    assert_eq!(fields(&m), ("@badges=;color=#FF0000 ", "n", "PRIVMSG", "#c", "hi"));
}

#[test]
fn bare_ping_line() {
    let m = parse_twitch_message("PING :tmi.twitch.tv");
    assert_eq!(m.context.command.trim_end(), "PING");
    assert_eq!(fields(&m), ("", "tmi.twitch.tv", "PING ", "*", ""));
}

#[test]
fn bare_command_without_argument() {
    let m = parse_twitch_message("PING");
    assert_eq!(fields(&m), ("", "", "PING", "*", ""));
    let m = parse_twitch_message("RECONNECT ");
    assert_eq!(fields(&m), ("", "", "RECONNECT ", "*", ""));
}

#[test]
fn bare_command_with_a_second_colon_is_read_as_prefixed() {
    let m = parse_twitch_message("PING :a:b");
    assert_eq!(fields(&m), ("PING ", "a", "", "", "b"));
}

#[test]
fn empty_line() {
    let m = parse_twitch_message("");
    assert_eq!(fields(&m), ("", "", "", "*", ""));
}

#[test]
fn lone_colon() {
    let m = parse_twitch_message(":");
    assert_eq!(fields(&m), ("", "", "", "", ""));
}

#[test]
fn lines_of_colons() {
    let m = parse_twitch_message("::");
    assert_eq!(fields(&m), ("", "", "", "", ""));
    let m = parse_twitch_message(":::");
    assert_eq!(fields(&m), ("", "", "", "", ":"));
    let m = parse_twitch_message("::::");
    assert_eq!(fields(&m), ("", "", "", "", "::"));
}

#[test]
fn prefixed_line_without_body() {
    let m = parse_twitch_message(":tmi.twitch.tv 001 nick");
    assert_eq!(fields(&m), ("", "tmi.twitch.tv", "001", "nick", ""));
}

#[test]
fn sender_without_user_part() {
    let m = parse_twitch_message(":tmi.twitch.tv NOTICE * :Login authentication failed");
    assert_eq!(fields(&m), ("", "tmi.twitch.tv", "NOTICE", "*", "Login authentication failed"));
}

#[test]
fn missing_words_are_empty() {
    let m = parse_twitch_message(":nick!u@h :body");
    assert_eq!(fields(&m), ("", "nick", "", "", "body"));
    let m = parse_twitch_message(":nick!u@h JOIN:");
    assert_eq!(fields(&m), ("", "nick", "JOIN", "", ""));
}

#[test]
fn words_behind_the_third_are_dropped() {
    let m = parse_twitch_message(":a!b@c 353 me = #chan :x y z");
    assert_eq!(fields(&m), ("", "a", "353", "me", "x y z"));
}

#[test]
fn double_space_gives_an_empty_word() {
    let m = parse_twitch_message(":a!b@c  PRIVMSG #chan :x");
    assert_eq!(fields(&m), ("", "a", "", "PRIVMSG", "x"));
}

#[test]
fn text_beyond_ascii() {
    let m = parse_twitch_message(":ñandú!u@h PRIVMSG #café :héllo wörld ✓: ok");
    assert_eq!(fields(&m), ("", "ñandú", "PRIVMSG", "#café", "héllo wörld ✓: ok"));
}

#[test]
fn context_of_a_middle_part() {
    let c: Context = parse_context("nick!user@host WHISPER someone ");
    assert_eq!(c.sender, "nick");
    assert_eq!(c.command, "WHISPER");
    assert_eq!(c.receiver, "someone");
    let c = parse_context("");
    assert_eq!((c.sender.as_str(), c.command.as_str(), c.receiver.as_str()), ("", "", ""));
    let c = parse_context("!user");
    assert_eq!((c.sender.as_str(), c.command.as_str(), c.receiver.as_str()), ("", "", ""));
}

#[test]
fn split_once_at_the_first_separator() {
    assert_eq!(split_once("a:b:c", ':'), ("a", Some("b:c")));
    assert_eq!(split_once("abc", ':'), ("abc", None));
    assert_eq!(split_once("", ':'), ("", None));
    assert_eq!(split_once(":", ':'), ("", Some("")));
    assert_eq!(split_once("abc:", ':'), ("abc", Some("")));
    assert_eq!(split_once("é✓:ü", ':'), ("é✓", Some("ü")));
}

#[test]
fn default_message_is_empty() {
    let m = IRCMessage::default();
    assert_eq!(fields(&m), ("", "", "", "", ""));
    let copy = m.clone();
    assert_eq!(fields(&copy), ("", "", "", "", ""));
}

/// The same reading, written with the splitting functions of the standard
/// library.
fn by_std_split(line: &str) -> (String, String, String, String, String) {
    let mut parts: Vec<String> = line.splitn(3, ':').map(|s| s.to_owned()).collect();
    if parts.len() < 3 && !line.starts_with(':') {
        let command = parts[0].clone();
        let sender = parts.get(1).cloned().unwrap_or_default();
        return (String::new(), sender, command, "*".to_string(), String::new());
    }
    if parts.len() < 3 {
        parts.push(String::new());
    }
    let mut words = parts[1].split(' ');
    let sender = words.next().unwrap_or_default().split('!').next().unwrap_or_default().to_owned();
    let command = words.next().unwrap_or_default().to_owned();
    let receiver = words.next().unwrap_or_default().to_owned();
    (parts[0].clone(), sender, command, receiver, parts[2].clone())
}

#[test]
fn agrees_with_std_splitting_on_every_short_line() {
    let alphabet = [':', ' ', '!', 'a', '\u{e9}'];
    let mut lines: Vec<String> = vec![String::new()];
    let mut checked = 0usize;
    for _ in 0..=6 {
        let mut longer = Vec::new();
        for line in &lines {
            let m = parse_twitch_message(line);
            let (tags, sender, command, receiver, body) = by_std_split(line);
            assert_eq!(fields(&m), (tags.as_str(), sender.as_str(), command.as_str(), receiver.as_str(), body.as_str()), "line {:?}", line);
            checked += 1;
            for c in alphabet {
                let mut next = line.clone();
                next.push(c);
                longer.push(next);
            }
        }
        lines = longer;
    }
    assert_eq!(checked, 1 + 5 + 25 + 125 + 625 + 3125 + 15625);
}
