//! A ready-made reply for handlers: the greeting that answers `!Ciao`.

use crate::message::{IRCMessage, MessageView};
use crate::text::starts_with;
use vstd::prelude::*;
use vstd::string::StringExecFns;

verus! {

/// The line that answers a greeting, without its terminator: a channel
/// message that begins with `!Ciao` is answered in the same channel, by
/// name. Other messages get no answer.
pub open spec fn greeting_reply_text(message: MessageView) -> Option<Seq<char>> {
    if message.context.command == "PRIVMSG"@ && "!Ciao"@.is_prefix_of(message.message) {
        Some("PRIVMSG "@ + message.context.receiver + " :Ciao @"@ + message.context.sender)
    } else {
        None
    }
}

/// The line to send in answer to `message`, if it is a greeting.
pub fn greeting_reply(message: &IRCMessage) -> (r: Option<String>)
    ensures
        r is Some <==> greeting_reply_text(message@) is Some,
        r is Some ==> r->0@ == greeting_reply_text(message@)->0,
{
    if message.context.command == String::from_str("PRIVMSG") && starts_with(
        message.message.as_str(),
        "!Ciao",
    ) {
        let mut line = String::from_str("PRIVMSG ");
        line.append(message.context.receiver.as_str());
        line.append(" :Ciao @");
        line.append(message.context.sender.as_str());
        Some(line)
    } else {
        None
    }
}

} // verus!
