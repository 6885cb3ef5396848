//! Ordered, append-only store of accepted messages.
//!
//! Messages are kept in the order their commits completed; nothing is ever
//! removed or reordered. Readers get a point-in-time copy of the whole log.

use vstd::prelude::*;

verus! {

/// One accepted message, immutable once created.
pub struct Message {
    pub sender: String,
    pub content: String,
}

/// The mathematical value of a message: its two texts.
pub struct MessageView {
    pub sender: Seq<char>,
    pub content: Seq<char>,
}

impl View for Message {
    type V = MessageView;

    open spec fn view(&self) -> MessageView {
        MessageView { sender: self.sender@, content: self.content@ }
    }
}

/// Ordered, append-only store of accepted messages.
pub struct MessageLog {
    messages: Vec<Message>,
}

impl MessageLog {
    /// The abstract state: the stored messages, oldest first.
    pub closed spec fn view(&self) -> Seq<MessageView> {
        self.messages@.map_values(|m: Message| m@)
    }

    /// A fresh log is empty.
    pub fn new() -> (r: MessageLog)
        ensures
            r@ == Seq::<MessageView>::empty(),
    {
        let r = MessageLog { messages: Vec::new() };
        proof {
            assert(r@ =~= Seq::<MessageView>::empty());
        }
        r
    }

    /// Add a message at the end of the log. Always succeeds; any
    /// validation is its caller's business.
    pub fn append(&mut self, message: Message)
        ensures
            final(self)@ == old(self)@.push(message@),
    {
        let ghost m = message@;
        self.messages.push(message);
        proof {
            assert(self@ =~= old(self)@.push(m));
        }
    }

    /// How many messages the log holds.
    pub fn len(&self) -> (r: usize)
        ensures
            r == self@.len(),
    {
        self.messages.len()
    }

    /// A consistent, point-in-time copy of the whole log, oldest first.
    pub fn snapshot(&self) -> (r: Vec<Message>)
        ensures
            r@.map_values(|m: Message| m@) == self@,
    {
        let mut out: Vec<Message> = Vec::new();
        let n = self.messages.len();
        let mut i: usize = 0;
        while i < n
            invariant
                n == self.messages@.len(),
                i <= n,
                out@.len() == i,
                forall|j: int| 0 <= j < i ==> (#[trigger] out@[j])@ == self.messages@[j]@,
            decreases n - i,
        {
            let copy = Message {
                sender: self.messages[i].sender.clone(),
                content: self.messages[i].content.clone(),
            };
            out.push(copy);
            i += 1;
        }
        proof {
            assert(out@.map_values(|m: Message| m@) =~= self@);
        }
        out
    }
}

} // verus!
