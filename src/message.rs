//! Role-tagged messages, the unit of a conversation.

use vstd::prelude::*;

verus! {

/// Who authored a message.
#[derive(Clone, Copy, Debug, PartialEq, Eq, Structural)]
pub enum Role {
    System,
    Assistant,
    User,
}

/// One message of a conversation: a role and its text.
#[derive(Clone, Debug, PartialEq, Eq)]
pub struct Message {
    pub role: Role,
    pub content: String,
}

/// The mathematical value of a message.
pub struct MessageView {
    pub role: Role,
    pub text: Seq<char>,
}

impl View for Message {
    type V = MessageView;

    open spec fn view(&self) -> MessageView {
        MessageView { role: self.role, text: self.content@ }
    }
}

/// The value of a message with the given role and text.
pub open spec fn message_of(role: Role, text: Seq<char>) -> MessageView {
    MessageView { role, text }
}

impl Message {
    /// A message with the given role and content.
    pub fn new(role: Role, content: String) -> (r: Message)
        ensures
            r@ == message_of(role, content@),
    {
        Message { role, content }
    }

    /// A copy of this message with the same role and text.
    pub fn duplicate(&self) -> (r: Message)
        ensures
            r@ == self@,
    {
        Message { role: self.role, content: self.content.clone() }
    }
}

} // verus!
