//! Conversation messages.
use vstd::prelude::*;

verus! {

/// The author of a message.
#[derive(Clone, Copy, Debug, PartialEq, Eq, Structural)]
pub enum Role {
    System,
    User,
    Assistant,
}

/// One turn of a conversation; its place in the conversation is its only identity.
#[derive(Clone, Debug, PartialEq, Eq)]
pub enum Message {
    System { content: String },
    User { content: String },
    Assistant { content: String },
}

/// What a message stands for: who wrote it and its text.
pub struct MessageView {
    pub role: Role,
    pub text: Seq<char>,
}

impl View for Message {
    type V = MessageView;

    open spec fn view(&self) -> MessageView {
        match self {
            Message::System { content } => MessageView { role: Role::System, text: content@ },
            Message::User { content } => MessageView { role: Role::User, text: content@ },
            Message::Assistant { content } => MessageView { role: Role::Assistant, text: content@ },
        }
    }
}

/// The views of a sequence of messages.
pub open spec fn messages_view(s: Seq<Message>) -> Seq<MessageView> {
    s.map_values(|m: Message| m@)
}

impl Message {
    /// The text that the message carries.
    pub fn content(&self) -> (r: &str)
        ensures
            r@ == self@.text,
    {
        match self {
            Message::System { content } => content.as_str(),
            Message::User { content } => content.as_str(),
            Message::Assistant { content } => content.as_str(),
        }
    }

    /// The author of the message.
    pub fn role(&self) -> (r: Role)
        ensures
            r == self@.role,
    {
        match self {
            Message::System { .. } => Role::System,
            Message::User { .. } => Role::User,
            Message::Assistant { .. } => Role::Assistant,
        }
    }

    /// A copy of the message.
    pub fn duplicate(&self) -> (r: Message)
        ensures
            r@ == self@,
    {
        match self {
            Message::System { content } => Message::System { content: String::from_str(content.as_str()) },
            Message::User { content } => Message::User { content: String::from_str(content.as_str()) },
            Message::Assistant { content } => Message::Assistant {
                content: String::from_str(content.as_str()),
            },
        }
    }
}

} // verus!
