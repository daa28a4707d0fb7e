//! The history buffer: the most recent messages, oldest first, never more
//! than a fixed number of them.

use crate::message::{Message, MessageView};
use std::collections::VecDeque;
use vstd::prelude::*;

verus! {

/// Capacity of the history a server keeps unless told otherwise.
pub const DEFAULT_HISTORY_CAPACITY: usize = 100;

/// The last `capacity` elements of `all`, in the order they have there; all of
/// `all` when it is no longer than that.
pub open spec fn retained(all: Seq<MessageView>, capacity: nat) -> Seq<MessageView> {
    if all.len() <= capacity {
        all
    } else {
        all.subrange(all.len() - capacity, all.len() as int)
    }
}

/// Contents of a buffer that held `start` after the messages of `incoming`
/// were appended to it one by one.
pub open spec fn after_appends(
    start: Seq<MessageView>,
    capacity: nat,
    incoming: Seq<MessageView>,
) -> Seq<MessageView>
    decreases incoming.len(),
{
    if incoming.len() == 0 {
        start
    } else {
        retained(
            after_appends(start, capacity, incoming.drop_last()).push(incoming.last()),
            capacity,
        )
    }
}

/// A bounded, insertion-ordered record of the most recent messages.
pub struct HistoryBuffer {
    items: VecDeque<Message>,
    capacity: usize,
}

impl View for HistoryBuffer {
    type V = Seq<MessageView>;

    /// The stored messages, oldest first.
    closed spec fn view(&self) -> Seq<MessageView> {
        self.items.deep_view()
    }
}

impl HistoryBuffer {
    #[verifier::type_invariant]
    spec fn within_capacity(self) -> bool {
        self.items@.len() <= self.capacity
    }

    /// The largest number of messages the buffer keeps.
    pub closed spec fn spec_capacity(&self) -> nat {
        self.capacity as nat
    }

    /// An empty buffer that keeps at most `capacity` messages.
    pub fn new(capacity: usize) -> (buffer: HistoryBuffer)
        ensures
            buffer@ == Seq::<MessageView>::empty(),
            buffer.spec_capacity() == capacity,
    {
        let buffer = HistoryBuffer { items: VecDeque::new(), capacity };
        assert(buffer.items.deep_view() =~= Seq::<MessageView>::empty());
        buffer
    }

    /// The capacity the buffer was made with.
    pub fn capacity(&self) -> (capacity: usize)
        ensures
            capacity == self.spec_capacity(),
    {
        self.capacity
    }

    /// Number of messages held; never more than the capacity.
    pub fn len(&self) -> (len: usize)
        ensures
            len == self@.len(),
            len <= self.spec_capacity(),
    {
        proof {
            use_type_invariant(self);
        }
        self.items.len()
    }

    /// Whether the buffer holds no message.
    pub fn is_empty(&self) -> (empty: bool)
        ensures
            empty == (self@.len() == 0),
    {
        self.items.len() == 0
    }

    /// Appends `message` as the newest entry. A full buffer first gives up
    /// its oldest entry, so that the buffer holds the latest messages only.
    pub fn append(&mut self, message: Message)
        ensures
            final(self)@ == retained(old(self)@.push(message@), old(self).spec_capacity()),
            final(self).spec_capacity() == old(self).spec_capacity(),
            final(self)@.len() <= final(self).spec_capacity(),
    {
        proof {
            use_type_invariant(&*self);
        }
        if self.capacity == 0 {
            assert(self@ =~= retained(self@.push(message@), 0));
            return ;
        }
        let ghost before = self.items.deep_view();
        let mut items: VecDeque<Message> = VecDeque::new();
        std::mem::swap(&mut items, &mut self.items);
        if items.len() >= self.capacity {
            items.pop_front();
        }
        items.push_back(message);
        assert(items.deep_view() =~= retained(before.push(message@), self.capacity as nat));
        self.items = items;
    }

    /// A copy of the current contents, oldest first.
    pub fn snapshot(&self) -> (copy: Vec<Message>)
        ensures
            copy.deep_view() == self@,
    {
        let mut copy: Vec<Message> = Vec::new();
        let mut i: usize = 0;
        while i < self.items.len()
            invariant
                i <= self.items@.len(),
                copy@.len() == i,
                forall|j: int| 0 <= j < i ==> (#[trigger] copy@[j])@ == self.items@[j]@,
            decreases self.items@.len() - i,
        {
            copy.push(self.items[i].clone());
            i += 1;
        }
        assert(copy.deep_view() =~= self.items.deep_view());
        copy
    }
}

/// Appending to what a first append retained keeps the same messages as
/// appending to everything.
proof fn lemma_retained_push(all: Seq<MessageView>, capacity: nat, message: MessageView)
    ensures
        retained(retained(all, capacity).push(message), capacity) == retained(
            all.push(message),
            capacity,
        ),
{
    assert(retained(retained(all, capacity).push(message), capacity) =~= retained(
        all.push(message),
        capacity,
    ));
}

/// A buffer that held `start`, within its capacity, holds after any run of
/// appends the last `capacity` messages of `start` followed by the run.
pub proof fn law_appends_retain_latest(
    start: Seq<MessageView>,
    capacity: nat,
    incoming: Seq<MessageView>,
)
    requires
        start.len() <= capacity,
    ensures
        after_appends(start, capacity, incoming) == retained(start + incoming, capacity),
        after_appends(start, capacity, incoming).len() <= capacity,
    decreases incoming.len(),
{
    if incoming.len() == 0 {
        assert(start + incoming =~= start);
    } else {
        let earlier = incoming.drop_last();
        law_appends_retain_latest(start, capacity, earlier);
        lemma_retained_push(start + earlier, capacity, incoming.last());
        assert((start + earlier).push(incoming.last()) =~= start + incoming);
    }
}

/// More appends than the capacity, into an empty buffer, leave exactly
/// `capacity` messages: the last `capacity` of those appended, in the order
/// in which they came.
pub proof fn law_overflow_keeps_last(capacity: nat, incoming: Seq<MessageView>)
    requires
        incoming.len() > capacity,
    ensures
        after_appends(Seq::empty(), capacity, incoming).len() == capacity,
        after_appends(Seq::empty(), capacity, incoming) == incoming.subrange(
            incoming.len() - capacity,
            incoming.len() as int,
        ),
{
    law_appends_retain_latest(Seq::empty(), capacity, incoming);
    assert(Seq::<MessageView>::empty() + incoming =~= incoming);
}

} // verus!
