//! The state of one session: the handler table, the bytes that wait for the
//! end of their line, the lines that wait to be written, and whether the
//! session still receives. The session performs no input or output itself:
//! a driver feeds it what it read and writes what it hands out.

use crate::callbacks::{EventKind, TwitchCallbacks};
use crate::capability::TwitchCapabilities;
use crate::config::UserConfig;
use crate::decode::{decode_lossy, lossy_text};
use crate::framing::{complete_lines, lemma_first_terminator_is, line_bytes, remainder,
    terminator_at, LineBuffer, CR, LF};
use crate::message::{message_views, IRCMessage, MessageView};
use crate::parser::{parse_line, parse_twitch_message};
use vstd::prelude::*;
use vstd::string::StringExecFns;
use vstd::utf8::{decode_utf8, encode_utf8, encode_utf8_decode_utf8, encode_utf8_valid_utf8,
    is_ascii_chars, is_ascii_chars_encode_utf8, valid_utf8};

verus! {

/// Where a session stands.
#[derive(Clone, Copy, Debug, PartialEq, Eq, Structural)]
pub enum SessionState {
    /// The session receives and sends.
    Open,
    /// Reading failed for good: nothing is received any more, lines can
    /// still be sent.
    ReceiveClosed,
    /// The session was shut down: its tasks stop.
    ShutDown,
}

/// What one attempt to read from the transport brought.
#[derive(Debug)]
pub enum ReadEvent {
    /// The bytes that were read; none when nothing was there.
    Bytes(Vec<u8>),
    /// Nothing can be read at the moment.
    WouldBlock,
    /// Reading failed for another reason.
    Failed,
}

/// What the receive loop does after one attempt to read.
#[derive(Debug)]
pub enum LoopStep {
    /// Hand these messages to their handlers, in order, then read again.
    Deliver(Vec<IRCMessage>),
    /// Wait a moment, then read again.
    Retry,
    /// Leave the loop.
    Stop,
}

/// A session with the chat server.
#[derive(Debug)]
pub struct TwitchConnection<H> {
    pub callbacks: TwitchCallbacks<H>,
    inbound: LineBuffer,
    outbound: Vec<String>,
    state: SessionState,
}

/// A protocol line as it is written to the transport: the text and the line
/// terminator.
pub open spec fn wire_line(text: Seq<char>) -> Seq<char> {
    text + "\r\n"@
}

/// A line on the wire is its text followed by carriage return and line feed,
/// the two bytes at which received bytes are cut into lines.
pub proof fn lemma_wire_line(text: Seq<char>)
    ensures
        wire_line(text) == text + seq!['\r', '\n'],
        '\r' as u8 == CR,
        '\n' as u8 == LF,
{
    reveal_strlit("\r\n");
    assert("\r\n"@ =~= seq!['\r', '\n']);
}

/// The texts of queued lines, in order.
pub open spec fn line_texts(lines: Seq<String>) -> Seq<Seq<char>> {
    Seq::new(lines.len(), |i: int| lines[i]@)
}

/// The lines that ask for `capabilities`, one for each and in their order.
pub open spec fn capability_lines(capabilities: Seq<TwitchCapabilities>) -> Seq<Seq<char>> {
    capabilities.map_values(|c: TwitchCapabilities| wire_line(c.request_text()))
}

/// The lines that join `channels`, one for each and in their order.
pub open spec fn join_lines(channels: Seq<String>) -> Seq<Seq<char>> {
    channels.map_values(|c: String| wire_line("JOIN #"@ + c@))
}

/// The lines that open a session for `user`: the login, the joins of the
/// user's channels, and the requests for the three capabilities.
pub open spec fn opening_lines(user: UserConfig) -> Seq<Seq<char>> {
    seq![wire_line("PASS oauth:"@ + user.token@), wire_line("NICK "@ + user.nickname@)]
        + join_lines(user.channels@) + capability_lines(
        seq![
            TwitchCapabilities::Tags,
            TwitchCapabilities::Commands,
            TwitchCapabilities::Membership,
        ],
    )
}

/// The messages that received lines spell, in order: each line is decoded,
/// then parsed.
pub open spec fn line_messages(lines: Seq<Seq<u8>>) -> Seq<MessageView> {
    lines.map_values(|line: Seq<u8>| parse_line(lossy_text(line)))
}

/// Whether `messages` are what a read of `chunk` brings where `pending` was
/// left over: one message for each line that is now complete, in order, each
/// the parse of the decoded line; for a line of valid UTF-8 that is the parse
/// of the text that the line encodes.
pub open spec fn brought(pending: Seq<u8>, chunk: Seq<u8>, messages: Seq<MessageView>) -> bool {
    let lines = complete_lines(pending + chunk);
    &&& messages == line_messages(lines)
    &&& forall|i: int|
        0 <= i < lines.len() && valid_utf8(#[trigger] lines[i]) ==> messages[i] == parse_line(
            decode_utf8(lines[i]),
        )
}

/// A line that is the UTF-8 encoding of a text is read as that text: its
/// message is the parse of the text.
pub proof fn lemma_brought_text(
    pending: Seq<u8>,
    chunk: Seq<u8>,
    messages: Seq<MessageView>,
    i: int,
    text: Seq<char>,
)
    requires
        brought(pending, chunk, messages),
        0 <= i < complete_lines(pending + chunk).len(),
        complete_lines(pending + chunk)[i] == encode_utf8(text),
    ensures
        messages[i] == parse_line(text),
{
    encode_utf8_valid_utf8(text);
    encode_utf8_decode_utf8(text);
}

/// From the wire to the message. A line of ASCII text without a carriage
/// return, read whole with its terminator where nothing was left over,
/// brings exactly one message, the parse of the text, and leaves nothing
/// over.
pub proof fn lemma_ascii_line_brought(text: Seq<char>, messages: Seq<MessageView>)
    requires
        is_ascii_chars(text),
        !text.contains('\r'),
        brought(Seq::empty(), encode_utf8(text) + seq![CR, LF], messages),
    ensures
        messages == seq![parse_line(text)],
        remainder(Seq::<u8>::empty() + (encode_utf8(text) + seq![CR, LF])) == Seq::<u8>::empty(),
{
    let line = encode_utf8(text);
    let chunk = line + seq![CR, LF];
    let bytes = Seq::<u8>::empty() + chunk;
    let n = line.len() as int;
    is_ascii_chars_encode_utf8(text);
    assert forall|j: int| 0 <= j < n implies !terminator_at(bytes, j) by {
        if bytes[j] == CR {
            assert(bytes[j] == line[j]);
            assert(text[j] as u8 == CR);
            assert(text[j] == '\r');
            assert(text.contains(text[j]));
        }
    }
    assert(terminator_at(bytes, n));
    lemma_first_terminator_is(bytes, n);
    let tail = bytes.subrange(n + 2, bytes.len() as int);
    assert(tail =~= Seq::<u8>::empty());
    assert(complete_lines(tail) =~= Seq::<Seq<u8>>::empty());
    assert(remainder(tail) == tail);
    assert(remainder(bytes) == remainder(tail));
    assert(bytes.subrange(0, n) =~= line);
    assert(complete_lines(bytes) =~= seq![line]);
    lemma_brought_text(Seq::empty(), chunk, messages, 0, text);
    assert(messages =~= seq![parse_line(text)]);
}

impl<H> TwitchConnection<H> {
    /// The lines that wait to be written, oldest first, each with its
    /// terminator.
    pub closed spec fn outbound(&self) -> Seq<Seq<char>> {
        line_texts(self.outbound@)
    }

    /// The received bytes that do not yet end in a terminator.
    pub closed spec fn pending(&self) -> Seq<u8> {
        self.inbound@
    }

    /// The handler table of the session.
    pub closed spec fn handlers(&self) -> TwitchCallbacks<H> {
        self.callbacks
    }

    /// Where the session stands.
    pub closed spec fn session(&self) -> SessionState {
        self.state
    }

    /// A fresh session: open, without handlers, with nothing received and
    /// nothing to write.
    pub fn new() -> (r: Self)
        ensures
            r.session() == SessionState::Open,
            r.outbound() == Seq::<Seq<char>>::empty(),
            r.pending() == Seq::<u8>::empty(),
            forall|kind: EventKind| !r.handlers().registered(kind),
    {
        let r = TwitchConnection {
            callbacks: TwitchCallbacks::new(),
            inbound: LineBuffer::new(),
            outbound: Vec::new(),
            state: SessionState::Open,
        };
        assert(r.outbound() =~= Seq::<Seq<char>>::empty());
        r
    }

    /// Where the session stands.
    pub fn state(&self) -> (r: SessionState)
        ensures
            r == self.session(),
    {
        self.state
    }

    /// Registers `handler` for `kind`, in place of the handler that was
    /// registered for it before. Nothing else changes.
    pub fn register(&mut self, kind: EventKind, handler: H)
        ensures
            final(self).handlers().slot(kind) == Some(handler),
            forall|other: EventKind|
                other != kind ==> final(self).handlers().slot(other) == old(self).handlers().slot(
                    other,
                ),
            final(self).outbound() == old(self).outbound(),
            final(self).pending() == old(self).pending(),
            final(self).session() == old(self).session(),
    {
        self.callbacks.register(kind, handler);
    }

    /// The kinds of the handlers to call for `message`, in the order of the
    /// calls: the catch-all handler first, then the handler of the message's
    /// command; each only where it is registered.
    pub fn dispatch(&self, message: &IRCMessage) -> (r: Vec<EventKind>)
        ensures
            r@ == self.handlers().dispatch_order(message@.context.command),
    {
        self.callbacks.dispatch(message)
    }

    /// The handler registered for `kind`, if there is one.
    pub fn handler(&self, kind: EventKind) -> (r: Option<&H>)
        ensures
            r is Some <==> self.handlers().registered(kind),
            r is Some ==> *r->0 == self.handlers().slot(kind)->0,
    {
        self.callbacks.handler(kind)
    }

    /// Queues `message` for the transport as one line: the text, then the
    /// line terminator. Lines queued before keep their place in front of it.
    pub fn send_message(&mut self, message: &str)
        ensures
            final(self).outbound() == old(self).outbound().push(wire_line(message@)),
            final(self).pending() == old(self).pending(),
            final(self).session() == old(self).session(),
            final(self).handlers() == old(self).handlers(),
    {
        let mut line = String::from_str(message);
        line.append("\r\n");
        self.outbound.push(line);
        assert(self.outbound() =~= old(self).outbound().push(wire_line(message@)));
    }

    /// Queues the two lines that log the user in: `PASS oauth:` with the
    /// token, then `NICK` with the nickname.
    pub fn server_auth(&mut self, password: &str, username: &str)
        ensures
            final(self).outbound() == old(self).outbound().push(
                wire_line("PASS oauth:"@ + password@),
            ).push(wire_line("NICK "@ + username@)),
            final(self).pending() == old(self).pending(),
            final(self).session() == old(self).session(),
            final(self).handlers() == old(self).handlers(),
    {
        let mut pass = String::from_str("PASS oauth:");
        pass.append(password);
        self.send_message(pass.as_str());
        let mut nick = String::from_str("NICK ");
        nick.append(username);
        self.send_message(nick.as_str());
    }

    /// Queues the line that joins a channel: `JOIN #` with the channel's
    /// name.
    pub fn join_channel(&mut self, channel: &str)
        ensures
            final(self).outbound() == old(self).outbound().push(wire_line("JOIN #"@ + channel@)),
            final(self).pending() == old(self).pending(),
            final(self).session() == old(self).session(),
            final(self).handlers() == old(self).handlers(),
    {
        let mut join = String::from_str("JOIN #");
        join.append(channel);
        self.send_message(join.as_str());
    }

    /// Queues one request line for each capability, in the order of the
    /// list.
    pub fn request_capabilities(&mut self, capabilities: Vec<TwitchCapabilities>)
        ensures
            final(self).outbound() == old(self).outbound() + capability_lines(capabilities@),
            final(self).pending() == old(self).pending(),
            final(self).session() == old(self).session(),
            final(self).handlers() == old(self).handlers(),
    {
        let ghost before = self.outbound();
        let mut i: usize = 0;
        assert(before + capability_lines(capabilities@.subrange(0, 0)) =~= before);
        while i < capabilities.len()
            invariant
                i <= capabilities.len(),
                self.outbound() == before + capability_lines(capabilities@.subrange(0, i as int)),
                self.pending() == old(self).pending(),
                self.session() == old(self).session(),
                self.handlers() == old(self).handlers(),
            decreases capabilities.len() - i,
        {
            let line = capabilities[i].request();
            self.send_message(line.as_str());
            assert(capability_lines(capabilities@.subrange(0, i + 1)) =~= capability_lines(
                capabilities@.subrange(0, i as int),
            ).push(wire_line(capabilities@[i as int].request_text())));
            assert(self.outbound() =~= before + capability_lines(
                capabilities@.subrange(0, i + 1),
            ));
            i = i + 1;
        }
        assert(capabilities@.subrange(0, i as int) =~= capabilities@);
    }

    /// Queues what opens a session for `user`: the login, one join for each
    /// of the user's channels in their order, and the requests for tags,
    /// commands and membership.
    pub fn log_in(&mut self, user: &UserConfig)
        ensures
            final(self).outbound() == old(self).outbound() + opening_lines(*user),
            final(self).pending() == old(self).pending(),
            final(self).session() == old(self).session(),
            final(self).handlers() == old(self).handlers(),
    {
        let ghost before = self.outbound();
        self.server_auth(user.token.as_str(), user.nickname.as_str());
        let ghost login = self.outbound();
        let mut i: usize = 0;
        assert(login + join_lines(user.channels@.subrange(0, 0)) =~= login);
        while i < user.channels.len()
            invariant
                i <= user.channels.len(),
                self.outbound() == login + join_lines(user.channels@.subrange(0, i as int)),
                self.pending() == old(self).pending(),
                self.session() == old(self).session(),
                self.handlers() == old(self).handlers(),
            decreases user.channels.len() - i,
        {
            self.join_channel(user.channels[i].as_str());
            assert(self.outbound() =~= login + join_lines(user.channels@.subrange(0, i + 1)));
            i = i + 1;
        }
        assert(user.channels@.subrange(0, i as int) =~= user.channels@);
        let mut capabilities: Vec<TwitchCapabilities> = Vec::new();
        capabilities.push(TwitchCapabilities::Tags);
        capabilities.push(TwitchCapabilities::Commands);
        capabilities.push(TwitchCapabilities::Membership);
        assert(capabilities@ =~= seq![
            TwitchCapabilities::Tags,
            TwitchCapabilities::Commands,
            TwitchCapabilities::Membership,
        ]);
        self.request_capabilities(capabilities);
        assert(self.outbound() =~= before + opening_lines(*user));
    }

    /// One beat of the keep-alive task. Unless the session was shut down, a
    /// bare `PING` line is queued and the task is told to go on; after a
    /// shutdown nothing is queued and the task is told to end.
    pub fn keep_alive(&mut self) -> (go_on: bool)
        ensures
            go_on == (old(self).session() != SessionState::ShutDown),
            go_on ==> final(self).outbound() == old(self).outbound().push(wire_line("PING"@)),
            !go_on ==> final(self).outbound() == old(self).outbound(),
            final(self).pending() == old(self).pending(),
            final(self).session() == old(self).session(),
            final(self).handlers() == old(self).handlers(),
    {
        match self.state {
            SessionState::ShutDown => false,
            _ => {
                self.send_message("PING");
                true
            },
        }
    }

    /// Hands out the lines that wait to be written, oldest first, and leaves
    /// none waiting.
    pub fn take_outbound(&mut self) -> (lines: Vec<String>)
        ensures
            line_texts(lines@) == old(self).outbound(),
            final(self).outbound() == Seq::<Seq<char>>::empty(),
            final(self).pending() == old(self).pending(),
            final(self).session() == old(self).session(),
            final(self).handlers() == old(self).handlers(),
    {
        let mut lines: Vec<String> = Vec::new();
        lines.append(&mut self.outbound);
        assert(lines@ =~= old(self).outbound@);
        assert(self.outbound() =~= Seq::<Seq<char>>::empty());
        lines
    }

    /// Shuts the session down: the receive loop and the keep-alive task end
    /// at their next step.
    pub fn shutdown(&mut self)
        ensures
            final(self).session() == SessionState::ShutDown,
            final(self).outbound() == old(self).outbound(),
            final(self).pending() == old(self).pending(),
            final(self).handlers() == old(self).handlers(),
    {
        self.state = SessionState::ShutDown;
    }

    /// Takes in the bytes of one read and gives the messages of the lines
    /// that are now complete, in the order of the lines. Each line is decoded
    /// as text, bytes that encode nothing replaced, and parsed. What follows
    /// the last terminator waits for the next read.
    pub fn receive(&mut self, chunk: &[u8]) -> (messages: Vec<IRCMessage>)
        ensures
            brought(old(self).pending(), chunk@, message_views(messages@)),
            final(self).pending() == remainder(old(self).pending() + chunk@),
            final(self).outbound() == old(self).outbound(),
            final(self).session() == old(self).session(),
            final(self).handlers() == old(self).handlers(),
    {
        let lines = self.inbound.push(chunk);
        let mut messages: Vec<IRCMessage> = Vec::new();
        let mut i: usize = 0;
        while i < lines.len()
            invariant
                i <= lines.len(),
                messages@.len() == i,
                forall|j: int|
                    0 <= j < i ==> (#[trigger] messages@[j])@ == parse_line(
                        lossy_text(lines@[j]@),
                    ),
                forall|j: int|
                    0 <= j < i && valid_utf8(lines@[j]@) ==> (#[trigger] messages@[j])@
                        == parse_line(decode_utf8(lines@[j]@)),
            decreases lines.len() - i,
        {
            let text = decode_lossy(lines[i].as_slice());
            let message = parse_twitch_message(text.as_str());
            messages.push(message);
            i = i + 1;
        }
        assert(message_views(messages@) =~= line_messages(line_bytes(lines@)));
        assert forall|j: int|
            0 <= j < lines@.len() && valid_utf8(#[trigger] line_bytes(lines@)[j]) implies message_views(
            messages@,
        )[j] == parse_line(decode_utf8(line_bytes(lines@)[j])) by {
            assert(line_bytes(lines@)[j] == lines@[j]@);
            assert(message_views(messages@)[j] == messages@[j]@);
        }
        messages
    }

    /// The step of the receive loop after one attempt to read. While the
    /// session is open: bytes are taken in and their messages handed out for
    /// delivery; no bytes, or a read that would block, means to wait and read
    /// again; a failed read closes the session for receiving and ends the
    /// loop. A session that no longer receives ends the loop at once.
    pub fn on_read(&mut self, event: ReadEvent) -> (step: LoopStep)
        ensures
            final(self).outbound() == old(self).outbound(),
            final(self).handlers() == old(self).handlers(),
            old(self).session() != SessionState::Open ==> step is Stop && final(self).session()
                == old(self).session() && final(self).pending() == old(self).pending(),
            old(self).session() == SessionState::Open ==> match event {
                ReadEvent::Bytes(bytes) => if bytes@.len() > 0 {
                    &&& step is Deliver
                    &&& brought(old(self).pending(), bytes@, message_views(step->Deliver_0@))
                    &&& final(self).pending() == remainder(old(self).pending() + bytes@)
                    &&& final(self).session() == SessionState::Open
                } else {
                    &&& step is Retry
                    &&& final(self).pending() == old(self).pending()
                    &&& final(self).session() == SessionState::Open
                },
                ReadEvent::WouldBlock => {
                    &&& step is Retry
                    &&& final(self).pending() == old(self).pending()
                    &&& final(self).session() == SessionState::Open
                },
                ReadEvent::Failed => {
                    &&& step is Stop
                    &&& final(self).pending() == old(self).pending()
                    &&& final(self).session() == SessionState::ReceiveClosed
                },
            },
    {
        match self.state {
            SessionState::Open => match event {
                ReadEvent::Bytes(bytes) => {
                    if bytes.len() > 0 {
                        LoopStep::Deliver(self.receive(bytes.as_slice()))
                    } else {
                        LoopStep::Retry
                    }
                },
                ReadEvent::WouldBlock => LoopStep::Retry,
                ReadEvent::Failed => {
                    self.state = SessionState::ReceiveClosed;
                    LoopStep::Stop
                },
            },
            _ => LoopStep::Stop,
        }
    }
}

} // verus!
