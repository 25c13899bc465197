//! The parser of inbound protocol lines.

use crate::message::{Context, ContextView, IRCMessage, MessageView};
use crate::text::{after, before, lemma_first_index, lemma_joined_lacks, lemma_split_absent,
    lemma_split_joined, occurs, split_once};
use vstd::prelude::*;

verus! {

/// The at most three parts that a line falls into at its first two `:`. What
/// lies behind the second `:` is one part, whatever it holds.
pub open spec fn line_parts(line: Seq<char>) -> Seq<Seq<char>> {
    if !occurs(line, ':') {
        seq![line]
    } else if !occurs(after(line, ':'), ':') {
        seq![before(line, ':'), after(line, ':')]
    } else {
        seq![before(line, ':'), before(after(line, ':'), ':'), after(after(line, ':'), ':')]
    }
}

/// Whether the line opens with `:`.
pub open spec fn starts_with_colon(line: Seq<char>) -> bool {
    line.len() > 0 && line[0] == ':'
}

/// The context that the middle part of a line spells: its first three words,
/// counted at single spaces, the first of them cut at its first `!`. A word
/// that is not there is empty.
pub open spec fn context_of(middle: Seq<char>) -> ContextView {
    ContextView {
        sender: before(before(middle, ' '), '!'),
        command: before(after(middle, ' '), ' '),
        receiver: before(after(after(middle, ' '), ' '), ' '),
    }
}

/// The message that a line without a prefix spells: a command, an optional
/// argument kept as the sender, and `*` for the receiver.
pub open spec fn bare_command(command: Seq<char>, argument: Seq<char>) -> MessageView {
    MessageView {
        tags: Seq::empty(),
        context: ContextView { sender: argument, command, receiver: seq!['*'] },
        message: Seq::empty(),
    }
}

/// The message that a protocol line spells.
pub open spec fn parse_line(line: Seq<char>) -> MessageView {
    let parts = line_parts(line);
    if parts.len() < 3 && !starts_with_colon(line) {
        bare_command(parts[0], if parts.len() > 1 { parts[1] } else { Seq::empty() })
    } else {
        MessageView {
            tags: parts[0],
            context: context_of(parts[1]),
            message: if parts.len() > 2 { parts[2] } else { Seq::empty() },
        }
    }
}

/// Reads the context out of the middle part of a line.
pub fn parse_context(middle: &str) -> (r: Context)
    ensures
        r@ == context_of(middle@),
{
    let (first, rest) = split_once(middle, ' ');
    let (nick, _) = split_once(first, '!');
    let sender = nick.to_owned();
    match rest {
        None => {
            proof {
                assert(before(Seq::<char>::empty(), ' ') =~= Seq::<char>::empty());
            }
            Context { sender, command: String::new(), receiver: String::new() }
        },
        Some(rest) => {
            let (second, rest) = split_once(rest, ' ');
            let command = second.to_owned();
            match rest {
                None => {
                    proof {
                        assert(before(Seq::<char>::empty(), ' ') =~= Seq::<char>::empty());
                    }
                    Context { sender, command, receiver: String::new() }
                },
                Some(rest) => {
                    let (third, _) = split_once(rest, ' ');
                    Context { sender, command, receiver: third.to_owned() }
                },
            }
        },
    }
}

/// Builds the message of a line without a prefix.
fn bare_message(command: &str, argument: &str) -> (r: IRCMessage)
    ensures
        r@ == bare_command(command@, argument@),
{
    proof {
        reveal_strlit("*");
        assert("*"@ =~= seq!['*']);
    }
    IRCMessage {
        tags: String::new(),
        context: Context {
            sender: argument.to_owned(),
            command: command.to_owned(),
            receiver: "*".to_owned(),
        },
        message: String::new(),
    }
}

/// Parses one protocol line, without its terminator. Every line gives a
/// message: what a line does not carry is left empty.
pub fn parse_twitch_message(message: &str) -> (r: IRCMessage)
    ensures
        r@ == parse_line(message@),
{
    let (head, rest) = split_once(message, ':');
    proof {
        lemma_first_index(message@, ':');
    }
    match rest {
        None => {
            proof {
                assert(before(message@, ':') =~= message@);
                reveal_strlit("");
                assert(""@ =~= Seq::<char>::empty());
            }
            bare_message(head, "")
        },
        Some(rest) => {
            let (middle, body) = split_once(rest, ':');
            match body {
                None => {
                    if head.unicode_len() > 0 {
                        bare_message(head, rest)
                    } else {
                        proof {
                            lemma_first_index(rest@, ':');
                            assert(before(rest@, ':') =~= rest@);
                            assert(head@ =~= Seq::<char>::empty());
                        }
                        IRCMessage {
                            tags: String::new(),
                            context: parse_context(middle),
                            message: String::new(),
                        }
                    }
                },
                Some(body) => {
                    IRCMessage {
                        tags: head.to_owned(),
                        context: parse_context(middle),
                        message: body.to_owned(),
                    }
                },
            }
        },
    }
}

/// The line that a server writes for a message with a prefix: the tag blob,
/// `:`, the sender as `nick!user`, the command, the target, and the body
/// behind ` :`.
pub open spec fn prefixed_line(
    tags: Seq<char>,
    nick: Seq<char>,
    user: Seq<char>,
    command: Seq<char>,
    target: Seq<char>,
    body: Seq<char>,
) -> Seq<char> {
    tags + seq![':'] + (nick + seq!['!'] + user + seq![' '] + command + seq![' '] + target
        + seq![' ']) + seq![':'] + body
}

/// A word of a prefix: it holds neither `:` nor a space.
pub open spec fn is_word(s: Seq<char>) -> bool {
    !s.contains(':') && !s.contains(' ')
}

/// Round trip. A line written as `tags:nick!user COMMAND target :body` parses
/// into exactly those tags, that nick as the sender, that command, that
/// target as the receiver and that body, whatever the body holds.
pub proof fn lemma_parse_prefixed_line(
    tags: Seq<char>,
    nick: Seq<char>,
    user: Seq<char>,
    command: Seq<char>,
    target: Seq<char>,
    body: Seq<char>,
)
    requires
        !tags.contains(':'),
        is_word(nick),
        !nick.contains('!'),
        is_word(user),
        is_word(command),
        is_word(target),
    ensures
        parse_line(prefixed_line(tags, nick, user, command, target, body)) == (MessageView {
            tags,
            context: ContextView { sender: nick, command, receiver: target },
            message: body,
        }),
{
    let bang = seq!['!'];
    let space = seq![' '];
    let source = nick + bang + user;
    let tail2 = target + space;
    let tail1 = command + space + tail2;
    let middle = source + space + tail1;
    let rest = middle + seq![':'] + body;
    let line = prefixed_line(tags, nick, user, command, target, body);
    assert(middle =~= nick + bang + user + space + command + space + target + space);
    assert(line =~= tags + seq![':'] + rest);

    assert(!bang.contains(':') && !bang.contains(' ')) by {
        if bang.contains(':') {
            let j = choose|j: int| 0 <= j < bang.len() && bang[j] == ':';
        }
        if bang.contains(' ') {
            let j = choose|j: int| 0 <= j < bang.len() && bang[j] == ' ';
        }
    }
    assert(!space.contains(':')) by {
        if space.contains(':') {
            let j = choose|j: int| 0 <= j < space.len() && space[j] == ':';
        }
    }
    // The middle part holds no `:`.
    lemma_joined_lacks(nick, bang, ':');
    lemma_joined_lacks(nick + bang, user, ':');
    lemma_joined_lacks(source, space, ':');
    lemma_joined_lacks(target, space, ':');
    lemma_joined_lacks(command, space, ':');
    lemma_joined_lacks(command + space, tail2, ':');
    lemma_joined_lacks(source + space, tail1, ':');
    // The sender token holds no space.
    lemma_joined_lacks(nick, bang, ' ');
    lemma_joined_lacks(nick + bang, user, ' ');

    // The three parts of the line.
    lemma_split_joined(tags, ':', rest);
    lemma_split_joined(middle, ':', body);
    assert(line_parts(line) =~= seq![tags, middle, body]);
    if tags.len() == 0 {
        assert(starts_with_colon(line));
    }
    // The three words of the middle part.
    lemma_split_joined(source, ' ', tail1);
    lemma_split_joined(nick, '!', user);
    lemma_split_joined(command, ' ', tail2);
    assert(tail2 =~= target + space + Seq::<char>::empty());
    lemma_split_joined(target, ' ', Seq::<char>::empty());
}

/// A line without any `:` is a bare command: the whole line is the command,
/// the receiver is `*`, and the other fields are empty. The empty line is
/// one of these.
pub proof fn lemma_parse_plain_line(line: Seq<char>)
    requires
        !line.contains(':'),
    ensures
        parse_line(line) == bare_command(line, Seq::empty()),
{
    lemma_split_absent(line, ':');
    assert(line_parts(line) =~= seq![line]);
    if line.len() > 0 {
        assert(line.contains(line[0]));
    }
}

/// A line `command:argument` with a single `:` that is not its first
/// character is a bare command: what stands in front of the `:` is the
/// command, as it stands there, what follows is kept as the sender, and the
/// receiver is `*`.
pub proof fn lemma_parse_bare_line(command: Seq<char>, argument: Seq<char>)
    requires
        command.len() > 0,
        !command.contains(':'),
        !argument.contains(':'),
    ensures
        parse_line(command + seq![':'] + argument) == bare_command(command, argument),
{
    let line = command + seq![':'] + argument;
    lemma_split_joined(command, ':', argument);
    lemma_split_absent(argument, ':');
    assert(line_parts(line) =~= seq![command, argument]);
    assert(line[0] == command[0]);
    assert(command.contains(command[0]));
}

/// A line that opens with its only `:` has a context and nothing else: no
/// tags and no body.
pub proof fn lemma_parse_prefix_only(middle: Seq<char>)
    requires
        !middle.contains(':'),
    ensures
        parse_line(seq![':'] + middle) == (MessageView {
            tags: Seq::empty(),
            context: context_of(middle),
            message: Seq::empty(),
        }),
{
    let line = seq![':'] + middle;
    assert(line =~= Seq::<char>::empty() + seq![':'] + middle);
    assert(!Seq::<char>::empty().contains(':'));
    lemma_split_joined(Seq::<char>::empty(), ':', middle);
    lemma_split_absent(middle, ':');
    assert(line_parts(line) =~= seq![Seq::<char>::empty(), middle]);
    assert(starts_with_colon(line));
}

/// A middle part without text gives the empty context, so the line `:`
/// parses into the message with every field empty.
pub proof fn lemma_parse_lone_colon()
    ensures
        context_of(Seq::empty()) == ContextView::empty(),
        parse_line(seq![':']) == MessageView::empty(),
{
    let e = Seq::<char>::empty();
    assert(!e.contains(' ') && !e.contains('!') && !e.contains(':'));
    lemma_split_absent(e, ' ');
    lemma_split_absent(e, '!');
    assert(seq![':'] + e =~= seq![':']);
    lemma_parse_prefix_only(e);
}

} // verus!
