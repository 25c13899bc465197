//! The handler table: at most one handler for each kind of event, and the
//! order in which the handlers of one message are called.

use crate::message::IRCMessage;
use crate::parser::{is_word, lemma_parse_prefixed_line, parse_line, prefixed_line};
use vstd::prelude::*;
use vstd::string::StringExecFns;

verus! {

/// The kinds of event that a handler can be registered for.
#[derive(Clone, Copy, Debug, PartialEq, Eq, Structural)]
pub enum EventKind {
    /// A `PING` of the server.
    Ping,
    /// A `PRIVMSG`: a message in a channel.
    PrivateMessage,
    /// A `WHISPER`: a message to the user alone.
    Whisper,
    /// Every message, whatever its command.
    AnyMessage,
}

/// The handlers of a session, of any type `H` that the caller can invoke.
/// Each slot holds the handler of one kind of event, or none.
#[derive(Debug)]
pub struct TwitchCallbacks<H> {
    pub ping_callback: Option<H>,
    pub privmsg_callback: Option<H>,
    pub whisper_callback: Option<H>,
    pub custom_callback: Option<H>,
}

/// The kind of event that a command has a handler slot of its own for.
pub open spec fn specific_kind(command: Seq<char>) -> Option<EventKind> {
    if command == "PING"@ {
        Some(EventKind::Ping)
    } else if command == "PRIVMSG"@ {
        Some(EventKind::PrivateMessage)
    } else if command == "WHISPER"@ {
        Some(EventKind::Whisper)
    } else {
        None
    }
}

/// `specific_kind` in executable form.
pub fn command_kind(command: &String) -> (r: Option<EventKind>)
    ensures
        r == specific_kind(command@),
{
    if *command == String::from_str("PING") {
        Some(EventKind::Ping)
    } else if *command == String::from_str("PRIVMSG") {
        Some(EventKind::PrivateMessage)
    } else if *command == String::from_str("WHISPER") {
        Some(EventKind::Whisper)
    } else {
        None
    }
}

impl<H> TwitchCallbacks<H> {
    /// The handler registered for `kind`, if there is one.
    pub open spec fn slot(&self, kind: EventKind) -> Option<H> {
        match kind {
            EventKind::Ping => self.ping_callback,
            EventKind::PrivateMessage => self.privmsg_callback,
            EventKind::Whisper => self.whisper_callback,
            EventKind::AnyMessage => self.custom_callback,
        }
    }

    /// Whether a handler is registered for `kind`.
    pub open spec fn registered(&self, kind: EventKind) -> bool {
        self.slot(kind) is Some
    }

    /// The kinds whose handlers a message with this command goes to, in the
    /// order of the calls: the catch-all handler first, then the handler of
    /// the command; each only where it is registered.
    pub open spec fn dispatch_order(&self, command: Seq<char>) -> Seq<EventKind> {
        let general: Seq<EventKind> = if self.registered(EventKind::AnyMessage) {
            seq![EventKind::AnyMessage]
        } else {
            Seq::empty()
        };
        let specific: Seq<EventKind> = match specific_kind(command) {
            Some(kind) => if self.registered(kind) {
                seq![kind]
            } else {
                Seq::empty()
            },
            None => Seq::empty(),
        };
        general + specific
    }

    /// A table without handlers.
    pub fn new() -> (r: Self)
        ensures
            forall|kind: EventKind| !r.registered(kind),
    {
        TwitchCallbacks {
            ping_callback: None,
            privmsg_callback: None,
            whisper_callback: None,
            custom_callback: None,
        }
    }

    /// Registers `handler` for `kind`, in place of the handler that was
    /// registered for it before. The other slots stay as they are.
    pub fn register(&mut self, kind: EventKind, handler: H)
        ensures
            final(self).slot(kind) == Some(handler),
            forall|other: EventKind| other != kind ==> final(self).slot(other) == old(self).slot(other),
    {
        match kind {
            EventKind::Ping => {
                self.ping_callback = Some(handler);
            },
            EventKind::PrivateMessage => {
                self.privmsg_callback = Some(handler);
            },
            EventKind::Whisper => {
                self.whisper_callback = Some(handler);
            },
            EventKind::AnyMessage => {
                self.custom_callback = Some(handler);
            },
        }
    }

    /// The handler registered for `kind`, if there is one.
    pub fn handler(&self, kind: EventKind) -> (r: Option<&H>)
        ensures
            r is Some <==> self.registered(kind),
            r is Some ==> *r->0 == self.slot(kind)->0,
    {
        match kind {
            EventKind::Ping => self.ping_callback.as_ref(),
            EventKind::PrivateMessage => self.privmsg_callback.as_ref(),
            EventKind::Whisper => self.whisper_callback.as_ref(),
            EventKind::AnyMessage => self.custom_callback.as_ref(),
        }
    }

    /// Whether a handler is registered for `kind`.
    pub fn is_registered(&self, kind: EventKind) -> (r: bool)
        ensures
            r == self.registered(kind),
    {
        self.handler(kind).is_some()
    }

    /// The kinds of the handlers to call for `message`, in the order of the
    /// calls.
    pub fn dispatch(&self, message: &IRCMessage) -> (r: Vec<EventKind>)
        ensures
            r@ == self.dispatch_order(message@.context.command),
    {
        let mut order: Vec<EventKind> = Vec::new();
        if self.is_registered(EventKind::AnyMessage) {
            order.push(EventKind::AnyMessage);
        }
        let ghost general = order@;
        match command_kind(&message.context.command) {
            Some(kind) => {
                if self.is_registered(kind) {
                    order.push(kind);
                    assert(order@ =~= general + seq![kind]);
                } else {
                    assert(order@ =~= general + Seq::<EventKind>::empty());
                }
            },
            None => {
                assert(order@ =~= general + Seq::<EventKind>::empty());
            },
        }
        assert(general =~= if self.registered(EventKind::AnyMessage) {
            seq![EventKind::AnyMessage]
        } else {
            Seq::empty()
        });
        order
    }
}

impl<H> Default for TwitchCallbacks<H> {
    fn default() -> (r: Self)
        ensures
            forall|kind: EventKind| !r.registered(kind),
    {
        TwitchCallbacks::new()
    }
}

/// The three commands that have a handler slot of their own.
pub proof fn lemma_specific_kinds()
    ensures
        specific_kind("PING"@) == Some(EventKind::Ping),
        specific_kind("PRIVMSG"@) == Some(EventKind::PrivateMessage),
        specific_kind("WHISPER"@) == Some(EventKind::Whisper),
{
    reveal_strlit("PING");
    reveal_strlit("PRIVMSG");
    reveal_strlit("WHISPER");
    assert("PING"@.len() == 4);
    assert("PRIVMSG"@.len() == 7);
    assert("WHISPER"@.len() == 7);
    assert("WHISPER"@[0] == 'W');
    assert("PRIVMSG"@[0] == 'P');
}

/// Dispatch order. Where the catch-all handler and the handler of a
/// message's command are both registered, the message goes to exactly these
/// two, once each, the catch-all handler first.
pub proof fn lemma_catch_all_first<H>(table: TwitchCallbacks<H>, command: Seq<char>, kind: EventKind)
    requires
        table.registered(EventKind::AnyMessage),
        specific_kind(command) == Some(kind),
        table.registered(kind),
    ensures
        table.dispatch_order(command) == seq![EventKind::AnyMessage, kind],
{
    assert(seq![EventKind::AnyMessage] + seq![kind] =~= seq![EventKind::AnyMessage, kind]);
}

/// Dispatch of a channel message. With the catch-all handler and the
/// `PRIVMSG` handler registered, a `PRIVMSG` line of any sender, target and
/// body goes to the catch-all handler first and to the `PRIVMSG` handler
/// second, once each.
pub proof fn lemma_privmsg_line_dispatch<H>(
    table: TwitchCallbacks<H>,
    tags: Seq<char>,
    nick: Seq<char>,
    user: Seq<char>,
    target: Seq<char>,
    body: Seq<char>,
)
    requires
        table.registered(EventKind::AnyMessage),
        table.registered(EventKind::PrivateMessage),
        !tags.contains(':'),
        is_word(nick),
        !nick.contains('!'),
        is_word(user),
        is_word(target),
    ensures
        table.dispatch_order(
            parse_line(prefixed_line(tags, nick, user, "PRIVMSG"@, target, body)).context.command,
        ) == seq![EventKind::AnyMessage, EventKind::PrivateMessage],
{
    let command = "PRIVMSG"@;
    assert(is_word(command)) by {
        reveal_strlit("PRIVMSG");
        if command.contains(':') {
            let j = choose|j: int| 0 <= j < command.len() && command[j] == ':';
        }
        if command.contains(' ') {
            let j = choose|j: int| 0 <= j < command.len() && command[j] == ' ';
        }
    }
    lemma_parse_prefixed_line(tags, nick, user, command, target, body);
    lemma_specific_kinds();
    lemma_catch_all_first(table, command, EventKind::PrivateMessage);
}

/// Every message goes to at most two handlers, each registered, none twice,
/// and the catch-all handler is never behind another.
pub proof fn lemma_dispatch_shape<H>(table: TwitchCallbacks<H>, command: Seq<char>)
    ensures
        table.dispatch_order(command).len() <= 2,
        forall|i: int|
            0 <= i < table.dispatch_order(command).len() ==> table.registered(
                #[trigger] table.dispatch_order(command)[i],
            ),
        forall|i: int|
            0 < i < table.dispatch_order(command).len() ==> #[trigger] table.dispatch_order(
                command,
            )[i] != EventKind::AnyMessage,
        table.dispatch_order(command).no_duplicates(),
        table.registered(EventKind::AnyMessage) <==> table.dispatch_order(command).contains(
            EventKind::AnyMessage,
        ),
{
    if table.registered(EventKind::AnyMessage) {
        assert(table.dispatch_order(command)[0] == EventKind::AnyMessage);
    }
}

} // verus!
