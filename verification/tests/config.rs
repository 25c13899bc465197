use twitch_chat::config::{decimal_text, tls_host, ApplicationConfig, Config, SeverConfig, TransportMode, UserConfig};
use twitch_chat::connection::TwitchConnection;
use twitch_chat::parser::parse_twitch_message;
use twitch_chat::reply::greeting_reply;
use twitch_chat::text::starts_with;

fn server(ssl_tls: bool, ssl_verify_mode: bool) -> SeverConfig {
    SeverConfig { address: "irc.chat.twitch.tv".to_string(), port: 6697, ssl_tls, ssl_verify_mode }
}

#[test]
fn endpoint_is_host_colon_port() {
    assert_eq!(server(true, true).endpoint(), "irc.chat.twitch.tv:6697");
    let local = SeverConfig { address: "127.0.0.1".to_string(), port: 0, ssl_tls: false, ssl_verify_mode: false };
    assert_eq!(local.endpoint(), "127.0.0.1:0");
    let odd = SeverConfig { address: "".to_string(), port: -5, ssl_tls: false, ssl_verify_mode: false };
    assert_eq!(odd.endpoint(), ":-5");
}

#[test]
fn transport_modes() {
    assert_eq!(server(false, false).transport_mode(), TransportMode::Clear);
    assert_eq!(server(false, true).transport_mode(), TransportMode::Clear);
    assert_eq!(server(true, true).transport_mode(), TransportMode::Encrypted);
    assert_eq!(server(true, false).transport_mode(), TransportMode::EncryptedUnverified);
    assert_eq!(tls_host(), "irc.chat.twitch.tv");
}

#[test]
fn opening_lines_of_a_session() {
    let config = Config {
        application: ApplicationConfig { log_level: "info".to_string() },
        sever: server(true, true),
        user: UserConfig {
            token: "tok".to_string(),
            nickname: "bot".to_string(),
            main_channel: "one".to_string(),
            channels: vec!["one".to_string(), "two".to_string()],
        },
    };
    let mut s: TwitchConnection<u8> = TwitchConnection::new();
    s.log_in(&config.user);
    assert_eq!(
        s.take_outbound(),
        vec![
            "PASS oauth:tok\r\n".to_string(),
            "NICK bot\r\n".to_string(),
            "JOIN #one\r\n".to_string(),
            "JOIN #two\r\n".to_string(),
            "CAP REQ :twitch.tv/tags\r\n".to_string(),
            "CAP REQ :twitch.tv/commands\r\n".to_string(),
            "CAP REQ :twitch.tv/membership\r\n".to_string(),
        ]
    );
    let copy = config.clone();
    assert_eq!(copy.user.channels, config.user.channels);
    assert_eq!(copy.application.log_level, "info");
}

#[test]
fn a_greeting_is_answered_by_name() {
    let m = parse_twitch_message(":nick!user@host PRIVMSG #chan :!Ciao a tutti");
    assert_eq!(greeting_reply(&m), Some("PRIVMSG #chan :Ciao @nick".to_string()));
    let m = parse_twitch_message(":nick!user@host PRIVMSG #chan :!Ciao");
    assert_eq!(greeting_reply(&m), Some("PRIVMSG #chan :Ciao @nick".to_string()));
}

#[test]
fn other_messages_get_no_answer() {
    let m = parse_twitch_message(":nick!user@host PRIVMSG #chan :Ciao");
    assert_eq!(greeting_reply(&m), None);
    let m = parse_twitch_message(":nick!user@host PRIVMSG #chan : !Ciao");
    assert_eq!(greeting_reply(&m), None);
    let m = parse_twitch_message(":nick!user@host PRIVMSG #chan :!Cia");
    assert_eq!(greeting_reply(&m), None);
    let m = parse_twitch_message(":nick!user@host WHISPER me :!Ciao");
    assert_eq!(greeting_reply(&m), None);
}

#[test]
fn prefixes() {
    assert!(starts_with("!Ciao a tutti", "!Ciao"));
    assert!(starts_with("!Ciao", "!Ciao"));
    assert!(starts_with("anything", ""));
    assert!(starts_with("", ""));
    assert!(!starts_with("!Cia", "!Ciao"));
    assert!(!starts_with("", "!"));
    assert!(!starts_with("x!Ciao", "!Ciao"));
    assert!(starts_with("\u{e9}t\u{e9}", "\u{e9}t"));
    assert!(!starts_with("\u{e9}t\u{e9}", "\u{e8}"));
}

#[test]
fn numbers_in_decimal() {
    assert_eq!(decimal_text(0), "0");
    assert_eq!(decimal_text(7), "7");
    assert_eq!(decimal_text(10), "10");
    assert_eq!(decimal_text(6667), "6667");
    assert_eq!(decimal_text(-1), "-1");
    assert_eq!(decimal_text(-1200), "-1200");
    assert_eq!(decimal_text(i64::MAX), "9223372036854775807");
    assert_eq!(decimal_text(i64::MIN), "-9223372036854775808");
    for n in [-1000i64, -99, -10, -9, 9, 99, 100, 101, 65535, 1234567890123] {
        assert_eq!(decimal_text(n), n.to_string());
    }
}
