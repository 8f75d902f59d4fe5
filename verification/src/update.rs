use vstd::prelude::*;

verus! {

/// The kind of chat an update happened in.
#[derive(Clone, Copy, Debug, PartialEq, Eq, Structural)]
pub enum ChatKind {
    /// A one-on-one conversation with a single account.
    User,
    /// A group chat.
    Group,
    /// A broadcast channel.
    Channel,
}

/// A chat, reduced to the fields the dispatch engine reads.
#[derive(Clone, Copy, Debug, PartialEq, Eq, Structural)]
pub struct Chat {
    pub kind: ChatKind,
    pub id: i64,
}

/// A message, reduced to the fields the dispatch engine reads.
#[derive(Clone, Debug, PartialEq)]
pub struct Message {
    pub text: String,
    pub chat: Chat,
    pub sender: Option<Chat>,
    pub reply_to_message_id: Option<i32>,
}

/// A callback query, carrying its payload as text.
#[derive(Clone, Debug, PartialEq)]
pub struct CallbackQuery {
    pub data: String,
    pub chat: Chat,
    pub sender: Chat,
}

/// An inline query.
#[derive(Clone, Debug, PartialEq)]
pub struct InlineQuery {
    pub text: String,
    pub sender: Chat,
}

/// A deletion notice: messages are identified by id only.
#[derive(Clone, Debug, PartialEq)]
pub struct MessageDeletion {
    pub message_ids: Vec<i32>,
    pub channel_id: Option<i64>,
}

/// One event delivered by the chat platform.
#[derive(Clone, Debug, PartialEq)]
pub enum Update {
    NewMessage(Message),
    MessageEdited(Message),
    MessageDeleted(MessageDeletion),
    CallbackQuery(CallbackQuery),
    InlineQuery(InlineQuery),
    /// An update of a kind the engine does not model further.
    Raw,
}

impl Update {
    /// The chat the update happened in, when it names one.
    pub open spec fn spec_chat(self) -> Option<Chat> {
        match self {
            Update::NewMessage(m) => Some(m.chat),
            Update::MessageEdited(m) => Some(m.chat),
            Update::CallbackQuery(q) => Some(q.chat),
            _ => None,
        }
    }

    /// The message the update carries, when it carries one.
    pub open spec fn spec_message(self) -> Option<Message> {
        match self {
            Update::NewMessage(m) => Some(m),
            Update::MessageEdited(m) => Some(m),
            _ => None,
        }
    }

    /// The callback query the update carries, when it carries one.
    pub open spec fn spec_query(self) -> Option<CallbackQuery> {
        match self {
            Update::CallbackQuery(q) => Some(q),
            _ => None,
        }
    }

    /// The account that sent the update, when one is known.
    pub open spec fn spec_sender(self) -> Option<Chat> {
        match self {
            Update::NewMessage(m) => m.sender,
            Update::MessageEdited(m) => m.sender,
            Update::CallbackQuery(q) => Some(q.sender),
            _ => None,
        }
    }

    /// The text the filters inspect: the message text, or the callback payload.
    pub open spec fn spec_text(self) -> Seq<char> {
        match self {
            Update::NewMessage(m) => m.text@,
            Update::MessageEdited(m) => m.text@,
            Update::CallbackQuery(q) => q.data@,
            _ => Seq::empty(),
        }
    }

    pub fn get_chat(&self) -> (r: Option<Chat>)
        ensures
            r == self.spec_chat(),
    {
        crate::utils::get_chat(self)
    }

    pub fn get_message(&self) -> (r: Option<Message>)
        ensures
            r == self.spec_message(),
    {
        crate::utils::get_message(self)
    }

    pub fn get_query(&self) -> (r: Option<CallbackQuery>)
        ensures
            r == self.spec_query(),
    {
        crate::utils::get_query(self)
    }

    pub fn get_sender(&self) -> (r: Option<Chat>)
        ensures
            r == self.spec_sender(),
    {
        crate::utils::get_sender(self)
    }
}

} // verus!
