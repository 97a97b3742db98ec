//! Chat messages as the agent history and the session stores hold them.

use vstd::prelude::*;

verus! {

/// One message of a conversation: a role (`system`, `user`, `assistant`, `tool`)
/// and its text.
pub struct ChatMessage {
    pub role: String,
    pub content: String,
}

/// A message as two character sequences.
pub struct MessageView {
    pub role: Seq<char>,
    pub content: Seq<char>,
}

impl View for ChatMessage {
    type V = MessageView;

    open spec fn view(&self) -> MessageView {
        MessageView { role: self.role@, content: self.content@ }
    }
}

/// Views of a message list.
pub open spec fn message_views(ms: Seq<ChatMessage>) -> Seq<MessageView> {
    ms.map_values(|m: ChatMessage| m@)
}

impl ChatMessage {
    pub fn system(content: &str) -> (m: ChatMessage)
        ensures
            m@ == (MessageView { role: "system"@, content: content@ }),
    {
        ChatMessage { role: "system".to_owned(), content: content.to_owned() }
    }

    pub fn user(content: &str) -> (m: ChatMessage)
        ensures
            m@ == (MessageView { role: "user"@, content: content@ }),
    {
        ChatMessage { role: "user".to_owned(), content: content.to_owned() }
    }

    pub fn assistant(content: &str) -> (m: ChatMessage)
        ensures
            m@ == (MessageView { role: "assistant"@, content: content@ }),
    {
        ChatMessage { role: "assistant".to_owned(), content: content.to_owned() }
    }
}

} // verus!
