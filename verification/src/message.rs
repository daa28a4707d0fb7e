//! The chat message: an immutable record stamped once by the server.

use vstd::prelude::*;

verus! {

/// Mathematical value of a [`Message`].
#[verifier::ext_equal]
pub struct MessageView {
    pub id: u64,
    pub timestamp: u64,
    pub author: Seq<char>,
    pub content: Seq<char>,
}

/// One chat message. `id` and `timestamp` (seconds since the epoch) are
/// assigned by the server, `author` is the identity bound to the sending
/// session, and only `content` comes from the client.
#[derive(Debug, PartialEq, Eq)]
pub struct Message {
    pub id: u64,
    pub timestamp: u64,
    pub author: String,
    pub content: String,
}

impl View for Message {
    type V = MessageView;

    open spec fn view(&self) -> MessageView {
        MessageView {
            id: self.id,
            timestamp: self.timestamp,
            author: self.author@,
            content: self.content@,
        }
    }
}

impl DeepView for Message {
    type V = MessageView;

    open spec fn deep_view(&self) -> MessageView {
        self.view()
    }
}

impl Clone for Message {
    fn clone(&self) -> (copy: Self)
        ensures
            copy@ == self@,
    {
        Message {
            id: self.id,
            timestamp: self.timestamp,
            author: self.author.clone(),
            content: self.content.clone(),
        }
    }
}

impl Message {
    /// Builds a message from its four fields.
    pub fn new(id: u64, timestamp: u64, author: String, content: String) -> (message: Message)
        ensures
            message@ == (MessageView { id, timestamp, author: author@, content: content@ }),
    {
        Message { id, timestamp, author, content }
    }
}

} // verus!
