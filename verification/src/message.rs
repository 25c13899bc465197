//! The data model of one parsed protocol line.

use vstd::prelude::*;

verus! {

/// Who sent a line, what it asks for and whom it addresses. A field that the
/// line does not carry is empty.
#[derive(Debug)]
pub struct Context {
    pub sender: String,
    pub command: String,
    pub receiver: String,
}

/// One protocol line: the raw tag blob, the context and the trailing body.
#[derive(Debug)]
pub struct IRCMessage {
    pub tags: String,
    pub context: Context,
    pub message: String,
}

/// The mathematical value of a `Context`.
pub ghost struct ContextView {
    pub sender: Seq<char>,
    pub command: Seq<char>,
    pub receiver: Seq<char>,
}

/// The mathematical value of an `IRCMessage`.
pub ghost struct MessageView {
    pub tags: Seq<char>,
    pub context: ContextView,
    pub message: Seq<char>,
}

impl View for Context {
    type V = ContextView;

    open spec fn view(&self) -> ContextView {
        ContextView { sender: self.sender@, command: self.command@, receiver: self.receiver@ }
    }
}

impl View for IRCMessage {
    type V = MessageView;

    open spec fn view(&self) -> MessageView {
        MessageView { tags: self.tags@, context: self.context@, message: self.message@ }
    }
}

impl ContextView {
    /// The context with every field empty.
    pub open spec fn empty() -> ContextView {
        ContextView { sender: Seq::empty(), command: Seq::empty(), receiver: Seq::empty() }
    }
}

impl MessageView {
    /// The message with every field empty.
    pub open spec fn empty() -> MessageView {
        MessageView { tags: Seq::empty(), context: ContextView::empty(), message: Seq::empty() }
    }
}

/// The views of a run of messages, in order.
pub open spec fn message_views(messages: Seq<IRCMessage>) -> Seq<MessageView> {
    Seq::new(messages.len(), |i: int| messages[i]@)
}

impl Default for Context {
    fn default() -> (r: Context)
        ensures
            r@ == ContextView::empty(),
    {
        Context { sender: String::new(), command: String::new(), receiver: String::new() }
    }
}

impl Default for IRCMessage {
    fn default() -> (r: IRCMessage)
        ensures
            r@ == MessageView::empty(),
    {
        IRCMessage { tags: String::new(), context: Context::default(), message: String::new() }
    }
}

impl Clone for Context {
    fn clone(&self) -> (r: Context)
        ensures
            r@ == self@,
    {
        Context {
            sender: self.sender.clone(),
            command: self.command.clone(),
            receiver: self.receiver.clone(),
        }
    }
}

impl Clone for IRCMessage {
    fn clone(&self) -> (r: IRCMessage)
        ensures
            r@ == self@,
    {
        IRCMessage {
            tags: self.tags.clone(),
            context: self.context.clone(),
            message: self.message.clone(),
        }
    }
}

} // verus!
