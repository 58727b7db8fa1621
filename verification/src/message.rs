//! Conversation turns: a role-tagged message and its model.

use vstd::prelude::*;

verus! {

/// Who contributed a turn to the conversation.
#[derive(Clone, Copy, Debug, PartialEq, Eq, Structural)]
pub enum Role {
    System,
    User,
    Assistant,
}

/// One turn of the conversation.
#[derive(Debug)]
pub struct Message {
    pub role: Role,
    pub content: String,
}

/// The model of a [`Message`].
pub struct MsgView {
    pub role: Role,
    pub content: Seq<char>,
}

impl View for Message {
    type V = MsgView;

    open spec fn view(&self) -> MsgView {
        MsgView { role: self.role, content: self.content@ }
    }
}

/// The models of a sequence of messages.
pub open spec fn msg_views(v: Seq<Message>) -> Seq<MsgView> {
    Seq::new(v.len(), |k: int| v[k]@)
}

} // verus!
