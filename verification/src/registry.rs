//! The subscriber registry: which sessions are attached, what each of them
//! still has to be sent, and the fan-out that publishes one message to all
//! of them without ever waiting for a slow one.

use crate::message::{Message, MessageView};
use std::collections::VecDeque;
use vstd::prelude::*;

verus! {

/// Identifier of one session, unique among the sessions attached at a time.
pub type SessionId = u128;

/// Undelivered messages a subscriber may have pending unless told otherwise.
pub const DEFAULT_QUEUE_CAPACITY: usize = 100;

/// Mathematical value of one registry entry: a session and the messages
/// published to it that it has not taken yet, oldest first.
#[verifier::ext_equal]
pub struct SubscriberView {
    pub id: SessionId,
    pub pending: Seq<MessageView>,
}

/// Whether `id` has an entry in `subscribers`.
pub open spec fn is_registered(subscribers: Seq<SubscriberView>, id: SessionId) -> bool {
    exists|i: int| 0 <= i < subscribers.len() && (#[trigger] subscribers[i]).id == id
}

/// Where the entry of `id` stands in `subscribers`, if it has one.
pub open spec fn position_of(subscribers: Seq<SubscriberView>, id: SessionId) -> int {
    choose|i: int| 0 <= i < subscribers.len() && (#[trigger] subscribers[i]).id == id
}

/// What `id` still has to be sent, oldest first, if it has an entry.
pub open spec fn pending_of(subscribers: Seq<SubscriberView>, id: SessionId) -> Seq<MessageView> {
    subscribers[position_of(subscribers, id)].pending
}

/// No session has two entries.
pub open spec fn distinct_sessions(subscribers: Seq<SubscriberView>) -> bool {
    forall|i: int, j: int|
        0 <= i < j < subscribers.len() ==> (#[trigger] subscribers[i]).id != (
        #[trigger] subscribers[j]).id
}

/// What holds of every registry: no session has two entries and no entry
/// has more pending than the queue capacity.
pub open spec fn well_formed(subscribers: Seq<SubscriberView>, capacity: nat) -> bool {
    &&& distinct_sessions(subscribers)
    &&& forall|i: int|
        0 <= i < subscribers.len() ==> (#[trigger] subscribers[i]).pending.len() <= capacity
}

/// The entries that can take one more message.
pub open spec fn has_room(capacity: nat) -> spec_fn(SubscriberView) -> bool {
    |subscriber: SubscriberView| subscriber.pending.len() < capacity
}

/// The entries that cannot.
pub open spec fn is_saturated(capacity: nat) -> spec_fn(SubscriberView) -> bool {
    |subscriber: SubscriberView| subscriber.pending.len() >= capacity
}

/// An entry with `message` added behind what it had pending.
pub open spec fn with_delivery(message: MessageView) -> spec_fn(SubscriberView) -> SubscriberView {
    |subscriber: SubscriberView|
        SubscriberView { id: subscriber.id, pending: subscriber.pending.push(message) }
}

/// The session of an entry.
pub open spec fn session_of() -> spec_fn(SubscriberView) -> SessionId {
    |subscriber: SubscriberView| subscriber.id
}

/// The registry after `id` was attached with nothing pending.
pub open spec fn after_subscribe(subscribers: Seq<SubscriberView>, id: SessionId) -> Seq<
    SubscriberView,
> {
    subscribers.push(SubscriberView { id, pending: Seq::empty() })
}

/// The registry after `id` was detached: its entry is gone, the others keep
/// their order; nothing changes if it had none.
pub open spec fn after_unsubscribe(subscribers: Seq<SubscriberView>, id: SessionId) -> Seq<
    SubscriberView,
> {
    if is_registered(subscribers, id) {
        subscribers.remove(position_of(subscribers, id))
    } else {
        subscribers
    }
}

/// The registry after `message` was published: every entry with room has it
/// as its newest pending message, and the saturated entries are gone.
pub open spec fn after_publish(
    subscribers: Seq<SubscriberView>,
    capacity: nat,
    message: MessageView,
) -> Seq<SubscriberView> {
    subscribers.filter(has_room(capacity)).map_values(with_delivery(message))
}

/// The sessions that a publish drops, in the order of their entries.
pub open spec fn dropped_by_publish(subscribers: Seq<SubscriberView>, capacity: nat) -> Seq<
    SessionId,
> {
    subscribers.filter(is_saturated(capacity)).map_values(session_of())
}

/// The registry after `id` took its oldest pending message; unchanged if
/// it has no entry or nothing pending.
pub open spec fn after_receive(subscribers: Seq<SubscriberView>, id: SessionId) -> Seq<
    SubscriberView,
> {
    if is_registered(subscribers, id) && pending_of(subscribers, id).len() > 0 {
        subscribers.update(
            position_of(subscribers, id),
            SubscriberView { id, pending: pending_of(subscribers, id).drop_first() },
        )
    } else {
        subscribers
    }
}

/// Why a subscription was refused.
#[derive(Debug, PartialEq, Eq, Clone, Copy)]
pub enum RegistryError {
    /// The session already has an entry.
    DuplicateSession,
}

/// What a subscriber gets when it asks for its next message.
#[derive(Debug, PartialEq, Eq)]
pub enum Delivery {
    /// The oldest message it had pending.
    Next(Message),
    /// Nothing is pending; the session is still attached.
    Idle,
    /// The session has no entry: it was detached, or dropped for being slow.
    Gone,
}

/// The subscriber's end of a subscription: names the session whose pending
/// messages it takes.
#[derive(Debug, PartialEq, Eq)]
pub struct DeliveryHandle {
    session: SessionId,
}

impl DeliveryHandle {
    /// The session this handle belongs to.
    pub closed spec fn spec_session(&self) -> SessionId {
        self.session
    }

    /// The session this handle belongs to.
    pub fn session(&self) -> (id: SessionId)
        ensures
            id == self.spec_session(),
    {
        self.session
    }
}

struct Subscriber {
    id: SessionId,
    pending: VecDeque<Message>,
}

impl DeepView for Subscriber {
    type V = SubscriberView;

    closed spec fn deep_view(&self) -> SubscriberView {
        SubscriberView { id: self.id, pending: self.pending.deep_view() }
    }
}

/// Tracks the attached sessions and fans published messages out to them.
pub struct SubscriberRegistry {
    subscribers: Vec<Subscriber>,
    queue_capacity: usize,
}

impl View for SubscriberRegistry {
    type V = Seq<SubscriberView>;

    /// The entries, in the order in which their sessions were attached.
    closed spec fn view(&self) -> Seq<SubscriberView> {
        self.subscribers.deep_view()
    }
}

/// Index of the entry of `id`, if there is one.
fn find(subscribers: &Vec<Subscriber>, id: SessionId) -> (found: Option<usize>)
    ensures
        match found {
            Some(i) => i < subscribers@.len() && subscribers@[i as int].id == id,
            None => !is_registered(subscribers.deep_view(), id),
        },
{
    let mut i: usize = 0;
    while i < subscribers.len()
        invariant
            i <= subscribers@.len(),
            forall|j: int| 0 <= j < i ==> (#[trigger] subscribers@[j]).id != id,
        decreases subscribers@.len() - i,
    {
        if subscribers[i].id == id {
            return Some(i);
        }
        i += 1;
    }
    assert forall|j: int| 0 <= j < subscribers.deep_view().len() implies (
    #[trigger] subscribers.deep_view()[j]).id != id by {
        assert(subscribers@[j].id != id);
    }
    None
}

/// In a registry without double entries an entry stands where its session
/// is looked up.
proof fn lemma_position(subscribers: Seq<SubscriberView>, i: int)
    requires
        distinct_sessions(subscribers),
        0 <= i < subscribers.len(),
    ensures
        is_registered(subscribers, subscribers[i].id),
        position_of(subscribers, subscribers[i].id) == i,
{
    let id = subscribers[i].id;
    let p = position_of(subscribers, id);
    assert(0 <= p < subscribers.len() && subscribers[p].id == id);
    if p < i {
        assert(subscribers[p].id != subscribers[i].id);
    } else if i < p {
        assert(subscribers[i].id != subscribers[p].id);
    }
}

impl SubscriberRegistry {
    #[verifier::type_invariant]
    spec fn valid(self) -> bool {
        well_formed(self.subscribers.deep_view(), self.queue_capacity as nat)
    }

    /// How many undelivered messages a subscriber may have pending.
    pub closed spec fn spec_queue_capacity(&self) -> nat {
        self.queue_capacity as nat
    }

    /// An empty registry whose subscribers may each have `queue_capacity`
    /// undelivered messages pending.
    pub fn new(queue_capacity: usize) -> (registry: SubscriberRegistry)
        ensures
            registry@ == Seq::<SubscriberView>::empty(),
            registry.spec_queue_capacity() == queue_capacity,
    {
        let registry = SubscriberRegistry { subscribers: Vec::new(), queue_capacity };
        assert(registry.subscribers.deep_view() =~= Seq::<SubscriberView>::empty());
        registry
    }

    /// The queue capacity the registry was made with.
    pub fn queue_capacity(&self) -> (capacity: usize)
        ensures
            capacity == self.spec_queue_capacity(),
    {
        self.queue_capacity
    }

    /// Number of attached sessions.
    pub fn len(&self) -> (len: usize)
        ensures
            len == self@.len(),
            well_formed(self@, self.spec_queue_capacity()),
    {
        proof {
            use_type_invariant(self);
        }
        self.subscribers.len()
    }

    /// Whether `id` is attached.
    pub fn is_subscribed(&self, id: SessionId) -> (attached: bool)
        ensures
            attached == is_registered(self@, id),
    {
        match find(&self.subscribers, id) {
            Some(i) => {
                assert(self.subscribers.deep_view()[i as int].id == id);
                true
            },
            None => false,
        }
    }

    /// How many messages `id` has pending, if it is attached.
    pub fn pending_count(&self, id: SessionId) -> (count: Option<usize>)
        ensures
            count is Some == is_registered(self@, id),
            count matches Some(n) ==> n == pending_of(self@, id).len(),
    {
        proof {
            use_type_invariant(self);
        }
        match find(&self.subscribers, id) {
            Some(i) => {
                proof {
                    lemma_position(self.subscribers.deep_view(), i as int);
                }
                Some(self.subscribers[i].pending.len())
            },
            None => None,
        }
    }

    /// Attaches `id` with nothing pending and hands out its delivery
    /// handle. A session that is already attached is refused and nothing
    /// changes.
    pub fn subscribe(&mut self, id: SessionId) -> (outcome: Result<DeliveryHandle, RegistryError>)
        ensures
            final(self).spec_queue_capacity() == old(self).spec_queue_capacity(),
            match outcome {
                Ok(handle) => {
                    &&& !is_registered(old(self)@, id)
                    &&& handle.spec_session() == id
                    &&& final(self)@ == after_subscribe(old(self)@, id)
                },
                Err(error) => {
                    &&& error == RegistryError::DuplicateSession
                    &&& is_registered(old(self)@, id)
                    &&& final(self)@ == old(self)@
                },
            },
    {
        proof {
            use_type_invariant(&*self);
        }
        match find(&self.subscribers, id) {
            Some(i) => {
                assert(self.subscribers.deep_view()[i as int].id == id);
                Err(RegistryError::DuplicateSession)
            },
            None => {
                let ghost before = self.subscribers.deep_view();
                let mut subscribers: Vec<Subscriber> = Vec::new();
                std::mem::swap(&mut subscribers, &mut self.subscribers);
                subscribers.push(Subscriber { id, pending: VecDeque::new() });
                proof {
                    assert(subscribers@.last().pending.deep_view() =~= Seq::<MessageView>::empty());
                    assert(subscribers.deep_view() =~= after_subscribe(before, id));
                    lemma_subscribe_keeps_well_formed(before, self.queue_capacity as nat, id);
                }
                self.subscribers = subscribers;
                Ok(DeliveryHandle { session: id })
            },
        }
    }

    /// Detaches `id`. Detaching a session that is not attached changes
    /// nothing.
    pub fn unsubscribe(&mut self, id: SessionId)
        ensures
            final(self).spec_queue_capacity() == old(self).spec_queue_capacity(),
            final(self)@ == after_unsubscribe(old(self)@, id),
            !is_registered(final(self)@, id),
    {
        proof {
            use_type_invariant(&*self);
        }
        match find(&self.subscribers, id) {
            Some(i) => {
                let ghost before = self.subscribers.deep_view();
                let mut subscribers: Vec<Subscriber> = Vec::new();
                std::mem::swap(&mut subscribers, &mut self.subscribers);
                subscribers.remove(i);
                proof {
                    lemma_position(before, i as int);
                    assert(subscribers.deep_view() =~= before.remove(i as int));
                    lemma_remove_keeps_well_formed(before, self.queue_capacity as nat, i as int);
                }
                self.subscribers = subscribers;
            },
            None => {},
        }
    }

    /// Publishes `message`: every attached session with room gets a copy
    /// behind what it already has pending. A session whose queue is full is
    /// detached instead, so that one slow subscriber never holds up the
    /// others. Returns the sessions detached that way.
    pub fn publish(&mut self, message: &Message) -> (dropped: Vec<SessionId>)
        ensures
            final(self).spec_queue_capacity() == old(self).spec_queue_capacity(),
            final(self)@ == after_publish(
                old(self)@,
                old(self).spec_queue_capacity(),
                message@,
            ),
            dropped@ == dropped_by_publish(old(self)@, old(self).spec_queue_capacity()),
    {
        proof {
            use_type_invariant(&*self);
        }
        let ghost before = self.subscribers.deep_view();
        let ghost capacity = self.queue_capacity as nat;
        let mut subscribers: Vec<Subscriber> = Vec::new();
        std::mem::swap(&mut subscribers, &mut self.subscribers);
        let mut dropped: Vec<SessionId> = Vec::new();
        let mut i: usize = 0;
        let ghost mut done: int = 0;
        proof {
            lemma_publish_nothing(capacity, message@);
            assert(before.take(0) =~= Seq::<SubscriberView>::empty());
            assert(subscribers.deep_view().take(0) =~= Seq::<SubscriberView>::empty());
            assert(subscribers.deep_view().skip(0) =~= before.skip(0));
        }
        while i < subscribers.len()
            invariant
                capacity == self.queue_capacity,
                0 <= done <= before.len(),
                i <= subscribers@.len(),
                subscribers@.len() - i == before.len() - done,
                subscribers.deep_view().take(i as int) == after_publish(
                    before.take(done),
                    capacity,
                    message@,
                ),
                subscribers.deep_view().skip(i as int) == before.skip(done),
                dropped@ == dropped_by_publish(before.take(done), capacity),
            decreases subscribers@.len() - i,
        {
            let ghost current = subscribers.deep_view();
            proof {
                assert(current.skip(i as int)[0] == before.skip(done)[0]);
                assert(current[i as int] == before[done]);
                lemma_publish_step(before.take(done), before[done], capacity, message@);
                assert(before.take(done + 1) =~= before.take(done).push(before[done]));
            }
            if subscribers[i].pending.len() < self.queue_capacity {
                let ghost queue = subscribers@[i as int].pending.deep_view();
                subscribers[i].pending.push_back(message.clone());
                proof {
                    let now = subscribers.deep_view();
                    assert(subscribers@[i as int].pending.deep_view() =~= queue.push(message@));
                    assert(now[i as int] == with_delivery(message@)(before[done]));
                    assert(now.take(i as int) =~= current.take(i as int));
                    assert(now.take(i + 1) =~= now.take(i as int).push(now[i as int]));
                    let rest = now.skip(i + 1);
                    let wanted = before.skip(done + 1);
                    assert forall|j: int| 0 <= j < rest.len() implies #[trigger] rest[j]
                        == wanted[j] by {
                        assert(now[i + 1 + j] == current[i + 1 + j]);
                        assert(current.skip(i as int)[j + 1] == before.skip(done)[j + 1]);
                    }
                    assert(rest =~= wanted);
                    done = done + 1;
                }
                i += 1;
            } else {
                let gone = subscribers.remove(i);
                dropped.push(gone.id);
                proof {
                    let now = subscribers.deep_view();
                    assert(now =~= current.remove(i as int));
                    assert(now.take(i as int) =~= current.take(i as int));
                    let rest = now.skip(i as int);
                    let wanted = before.skip(done + 1);
                    assert forall|j: int| 0 <= j < rest.len() implies #[trigger] rest[j]
                        == wanted[j] by {
                        assert(now[i + j] == current[i + j + 1]);
                        assert(current.skip(i as int)[j + 1] == before.skip(done)[j + 1]);
                    }
                    assert(rest =~= wanted);
                    done = done + 1;
                }
            }
        }
        proof {
            assert(before.take(done) =~= before);
            assert(subscribers.deep_view().take(i as int) =~= subscribers.deep_view());
            lemma_publish_keeps_well_formed(before, capacity, message@);
        }
        self.subscribers = subscribers;
        dropped
    }

    /// Takes the oldest message that the handle's session has pending.
    pub fn receive(&mut self, handle: &DeliveryHandle) -> (delivery: Delivery)
        ensures
            final(self).spec_queue_capacity() == old(self).spec_queue_capacity(),
            final(self)@ == after_receive(old(self)@, handle.spec_session()),
            match delivery {
                Delivery::Next(message) => {
                    &&& is_registered(old(self)@, handle.spec_session())
                    &&& pending_of(old(self)@, handle.spec_session()).len() > 0
                    &&& message@ == pending_of(old(self)@, handle.spec_session()).first()
                },
                Delivery::Idle => {
                    &&& is_registered(old(self)@, handle.spec_session())
                    &&& pending_of(old(self)@, handle.spec_session()).len() == 0
                },
                Delivery::Gone => !is_registered(old(self)@, handle.spec_session()),
            },
    {
        proof {
            use_type_invariant(&*self);
        }
        let id = handle.session;
        match find(&self.subscribers, id) {
            Some(i) => {
                let ghost before = self.subscribers.deep_view();
                let ghost queue = before[i as int].pending;
                proof {
                    lemma_position(before, i as int);
                }
                let mut subscribers: Vec<Subscriber> = Vec::new();
                std::mem::swap(&mut subscribers, &mut self.subscribers);
                let taken = subscribers[i].pending.pop_front();
                proof {
                    let now = subscribers.deep_view();
                    if queue.len() > 0 {
                        assert(subscribers@[i as int].pending.deep_view() =~= queue.drop_first());
                        assert(now =~= before.update(
                            i as int,
                            SubscriberView { id, pending: queue.drop_first() },
                        ));
                    } else {
                        assert(subscribers@[i as int].pending.deep_view() =~= queue);
                        assert(now =~= before);
                    }
                    assert(now == after_receive(before, id));
                    lemma_receive_keeps_well_formed(before, self.queue_capacity as nat, id);
                }
                self.subscribers = subscribers;
                match taken {
                    Some(message) => Delivery::Next(message),
                    None => Delivery::Idle,
                }
            },
            None => Delivery::Gone,
        }
    }
}

/// Publishing to an empty registry leaves it empty and drops nobody.
proof fn lemma_publish_nothing(capacity: nat, message: MessageView)
    ensures
        after_publish(Seq::empty(), capacity, message) == Seq::<SubscriberView>::empty(),
        dropped_by_publish(Seq::empty(), capacity) == Seq::<SessionId>::empty(),
{
    reveal(Seq::filter);
    assert(after_publish(Seq::empty(), capacity, message) =~= Seq::<SubscriberView>::empty());
    assert(dropped_by_publish(Seq::empty(), capacity) =~= Seq::<SessionId>::empty());
}

/// What a publish does to a registry with one more entry at its end.
proof fn lemma_publish_step(
    subscribers: Seq<SubscriberView>,
    last: SubscriberView,
    capacity: nat,
    message: MessageView,
)
    ensures
        after_publish(subscribers.push(last), capacity, message) == if last.pending.len()
            < capacity {
            after_publish(subscribers, capacity, message).push(with_delivery(message)(last))
        } else {
            after_publish(subscribers, capacity, message)
        },
        dropped_by_publish(subscribers.push(last), capacity) == if last.pending.len() < capacity {
            dropped_by_publish(subscribers, capacity)
        } else {
            dropped_by_publish(subscribers, capacity).push(last.id)
        },
{
    subscribers.lemma_filter_push(last, has_room(capacity));
    subscribers.lemma_filter_push(last, is_saturated(capacity));
    subscribers.filter(has_room(capacity)).lemma_push_map_commute(with_delivery(message), last);
    subscribers.filter(is_saturated(capacity)).lemma_push_map_commute(session_of(), last);
}

/// Entry by entry, what a publish leaves: the entries that had room, in
/// their order, each with the message behind what it had pending.
proof fn lemma_publish_entries(subscribers: Seq<SubscriberView>, capacity: nat, message: MessageView)
    requires
        distinct_sessions(subscribers),
    ensures
        distinct_sessions(after_publish(subscribers, capacity, message)),
        forall|j: int|
            0 <= j < after_publish(subscribers, capacity, message).len() ==> {
                let entry = #[trigger] after_publish(subscribers, capacity, message)[j];
                &&& is_registered(subscribers, entry.id)
                &&& pending_of(subscribers, entry.id).len() < capacity
                &&& entry.pending == pending_of(subscribers, entry.id).push(message)
            },
        forall|i: int|
            0 <= i < subscribers.len() && (#[trigger] subscribers[i]).pending.len() < capacity
                ==> is_registered(after_publish(subscribers, capacity, message), subscribers[i].id),
    decreases subscribers.len(),
{
    let out = after_publish(subscribers, capacity, message);
    if subscribers.len() == 0 {
        assert(subscribers =~= Seq::empty());
        lemma_publish_nothing(capacity, message);
    } else {
        let earlier = subscribers.drop_last();
        let last = subscribers.last();
        let n = earlier.len() as int;
        let earlier_out = after_publish(earlier, capacity, message);
        assert(subscribers =~= earlier.push(last));
        assert forall|a: int, b: int| 0 <= a < b < earlier.len() implies (#[trigger] earlier[a]).id
            != (#[trigger] earlier[b]).id by {
            assert(subscribers[a].id != subscribers[b].id);
        }
        lemma_publish_entries(earlier, capacity, message);
        lemma_publish_step(earlier, last, capacity, message);
        // What was said of an entry of `earlier` holds of it in `subscribers`.
        assert forall|id: SessionId| is_registered(earlier, id) implies is_registered(
            subscribers,
            id,
        ) && pending_of(subscribers, id) == pending_of(earlier, id) && id != last.id by {
            let p = position_of(earlier, id);
            assert(subscribers[p] == earlier[p]);
            lemma_position(subscribers, p);
            assert(subscribers[p].id != subscribers[n].id);
        }
        lemma_position(subscribers, n);
        assert forall|j: int| 0 <= j < out.len() implies {
            let entry = #[trigger] out[j];
            &&& is_registered(subscribers, entry.id)
            &&& pending_of(subscribers, entry.id).len() < capacity
            &&& entry.pending == pending_of(subscribers, entry.id).push(message)
        } by {
            if j < earlier_out.len() {
                assert(out[j] == earlier_out[j]);
                assert(is_registered(earlier, earlier_out[j].id));
            }
        }
        assert forall|a: int, b: int| 0 <= a < b < out.len() implies (#[trigger] out[a]).id != (
        #[trigger] out[b]).id by {
            assert(out[a] == earlier_out[a]);
            assert(is_registered(earlier, earlier_out[a].id));
            if b < earlier_out.len() {
                assert(out[b] == earlier_out[b]);
            }
        }
        assert forall|i: int|
            0 <= i < subscribers.len() && (#[trigger] subscribers[i]).pending.len()
                < capacity implies is_registered(out, subscribers[i].id) by {
            if i < n {
                assert(earlier[i] == subscribers[i]);
                assert(is_registered(earlier_out, earlier[i].id));
                let j = position_of(earlier_out, earlier[i].id);
                assert(out[j] == earlier_out[j]);
            } else {
                assert(out[out.len() - 1].id == last.id);
            }
        }
    }
}

/// A publish reaches exactly the sessions that had room, and adds the
/// message behind what each of them had pending.
pub proof fn law_publish_reaches_those_with_room(
    subscribers: Seq<SubscriberView>,
    capacity: nat,
    message: MessageView,
    id: SessionId,
)
    requires
        distinct_sessions(subscribers),
    ensures
        distinct_sessions(after_publish(subscribers, capacity, message)),
        is_registered(after_publish(subscribers, capacity, message), id) <==> is_registered(
            subscribers,
            id,
        ) && pending_of(subscribers, id).len() < capacity,
        is_registered(after_publish(subscribers, capacity, message), id) ==> pending_of(
            after_publish(subscribers, capacity, message),
            id,
        ) == pending_of(subscribers, id).push(message),
{
    let out = after_publish(subscribers, capacity, message);
    lemma_publish_entries(subscribers, capacity, message);
    if is_registered(out, id) {
        let j = position_of(out, id);
        assert(out[j].id == id);
    }
    if is_registered(subscribers, id) && pending_of(subscribers, id).len() < capacity {
        let i = position_of(subscribers, id);
        assert(subscribers[i].pending.len() < capacity);
    }
}

/// A publish leaves a registry.
proof fn lemma_publish_keeps_well_formed(
    subscribers: Seq<SubscriberView>,
    capacity: nat,
    message: MessageView,
)
    requires
        well_formed(subscribers, capacity),
    ensures
        well_formed(after_publish(subscribers, capacity, message), capacity),
{
    lemma_publish_entries(subscribers, capacity, message);
}

/// Taking one entry out of a registry leaves a registry, and one without
/// the session of that entry.
proof fn lemma_remove_keeps_well_formed(subscribers: Seq<SubscriberView>, capacity: nat, i: int)
    requires
        well_formed(subscribers, capacity),
        0 <= i < subscribers.len(),
    ensures
        well_formed(subscribers.remove(i), capacity),
        !is_registered(subscribers.remove(i), subscribers[i].id),
{
    let rest = subscribers.remove(i);
    assert forall|a: int, b: int| 0 <= a < b < rest.len() implies (#[trigger] rest[a]).id != (
    #[trigger] rest[b]).id by {
        let a0 = if a < i { a } else { a + 1 };
        let b0 = if b < i { b } else { b + 1 };
        assert(rest[a] == subscribers[a0]);
        assert(rest[b] == subscribers[b0]);
        assert(subscribers[a0].id != subscribers[b0].id);
    }
    assert forall|a: int| 0 <= a < rest.len() implies (#[trigger] rest[a]).pending.len()
        <= capacity by {
        let a0 = if a < i { a } else { a + 1 };
        assert(rest[a] == subscribers[a0]);
    }
    assert forall|a: int| 0 <= a < rest.len() implies (#[trigger] rest[a]).id
        != subscribers[i].id by {
        let a0 = if a < i { a } else { a + 1 };
        assert(rest[a] == subscribers[a0]);
        if a0 < i {
            assert(subscribers[a0].id != subscribers[i].id);
        } else {
            assert(subscribers[i].id != subscribers[a0].id);
        }
    }
}

/// Two messages published one after the other stand in that order, behind
/// what was pending before, in the queue of every session that is still
/// attached after both. Since a session takes its pending messages from
/// the front, it gets the first before the second.
pub proof fn law_publish_order(
    subscribers: Seq<SubscriberView>,
    capacity: nat,
    first: MessageView,
    second: MessageView,
    id: SessionId,
)
    requires
        well_formed(subscribers, capacity),
        is_registered(
            after_publish(after_publish(subscribers, capacity, first), capacity, second),
            id,
        ),
    ensures
        is_registered(subscribers, id),
        pending_of(
            after_publish(after_publish(subscribers, capacity, first), capacity, second),
            id,
        ) == pending_of(subscribers, id).push(first).push(second),
{
    let between = after_publish(subscribers, capacity, first);
    law_publish_reaches_those_with_room(subscribers, capacity, first, id);
    law_publish_reaches_those_with_room(between, capacity, second, id);
}

/// Taking a message between two publishes does not change their order: the
/// session takes what was oldest, and the two published messages still
/// stand first before second at the end of its queue.
pub proof fn law_receive_keeps_order(
    subscribers: Seq<SubscriberView>,
    capacity: nat,
    first: MessageView,
    second: MessageView,
    id: SessionId,
)
    requires
        well_formed(subscribers, capacity),
        is_registered(
            after_publish(
                after_receive(after_publish(subscribers, capacity, first), id),
                capacity,
                second,
            ),
            id,
        ),
    ensures
        is_registered(subscribers, id),
        pending_of(
            after_publish(
                after_receive(after_publish(subscribers, capacity, first), id),
                capacity,
                second,
            ),
            id,
        ) == pending_of(subscribers, id).push(first).drop_first().push(second),
{
    let published = after_publish(subscribers, capacity, first);
    let taken = after_receive(published, id);
    law_publish_reaches_those_with_room(subscribers, capacity, first, id);
    law_receive_takes_the_oldest(published, id);
    law_publish_reaches_those_with_room(taken, capacity, second, id);
}

/// Taking a message detaches nobody, and takes from the queue of its own
/// session the oldest message and nothing else.
pub proof fn law_receive_takes_the_oldest(subscribers: Seq<SubscriberView>, id: SessionId)
    requires
        distinct_sessions(subscribers),
    ensures
        distinct_sessions(after_receive(subscribers, id)),
        forall|other: SessionId|
            is_registered(after_receive(subscribers, id), other) <==> is_registered(
                subscribers,
                other,
            ),
        is_registered(subscribers, id) && pending_of(subscribers, id).len() > 0 ==> pending_of(
            after_receive(subscribers, id),
            id,
        ) == pending_of(subscribers, id).drop_first(),
{
    let out = after_receive(subscribers, id);
    if is_registered(subscribers, id) && pending_of(subscribers, id).len() > 0 {
        let p = position_of(subscribers, id);
        assert forall|a: int, b: int| 0 <= a < b < out.len() implies (#[trigger] out[a]).id != (
        #[trigger] out[b]).id by {
            assert(subscribers[a].id != subscribers[b].id);
        }
        assert forall|other: SessionId| is_registered(out, other) <==> is_registered(
            subscribers,
            other,
        ) by {
            if is_registered(out, other) {
                let j = position_of(out, other);
                assert(subscribers[j].id == other);
            }
            if is_registered(subscribers, other) {
                let j = position_of(subscribers, other);
                assert(out[j].id == other);
            }
        }
        lemma_position(out, p);
    }
}

/// Taking a message leaves a registry.
proof fn lemma_receive_keeps_well_formed(
    subscribers: Seq<SubscriberView>,
    capacity: nat,
    id: SessionId,
)
    requires
        well_formed(subscribers, capacity),
    ensures
        well_formed(after_receive(subscribers, id), capacity),
{
    law_receive_takes_the_oldest(subscribers, id);
    let taken = after_receive(subscribers, id);
    assert forall|a: int| 0 <= a < taken.len() implies (#[trigger] taken[a]).pending.len()
        <= capacity by {
        assert(subscribers[a].pending.len() <= capacity);
    }
}

/// A session that was just attached is attached: attaching it once more,
/// with no detach in between, is refused.
pub proof fn law_subscribe_twice_is_refused(subscribers: Seq<SubscriberView>, id: SessionId)
    ensures
        is_registered(after_subscribe(subscribers, id), id),
{
    let out = after_subscribe(subscribers, id);
    assert(out[out.len() - 1].id == id);
}

/// Detaching a session that is not attached changes nothing, and detaching
/// a session twice is the same as detaching it once.
pub proof fn law_unsubscribe_is_idempotent(
    subscribers: Seq<SubscriberView>,
    capacity: nat,
    id: SessionId,
)
    requires
        well_formed(subscribers, capacity),
    ensures
        !is_registered(subscribers, id) ==> after_unsubscribe(subscribers, id) == subscribers,
        !is_registered(after_unsubscribe(subscribers, id), id),
        after_unsubscribe(after_unsubscribe(subscribers, id), id) == after_unsubscribe(
            subscribers,
            id,
        ),
{
    if is_registered(subscribers, id) {
        lemma_remove_keeps_well_formed(subscribers, capacity, position_of(subscribers, id));
    }
}

/// Attaching a session that is not attached leaves a registry.
proof fn lemma_subscribe_keeps_well_formed(
    subscribers: Seq<SubscriberView>,
    capacity: nat,
    id: SessionId,
)
    requires
        well_formed(subscribers, capacity),
        !is_registered(subscribers, id),
    ensures
        well_formed(after_subscribe(subscribers, id), capacity),
{
    let out = after_subscribe(subscribers, id);
    assert forall|a: int, b: int| 0 <= a < b < out.len() implies (#[trigger] out[a]).id != (
    #[trigger] out[b]).id by {
        if b == subscribers.len() {
            assert(subscribers[a].id != id);
        } else {
            assert(subscribers[a].id != subscribers[b].id);
        }
    }
    assert forall|a: int| 0 <= a < out.len() implies (#[trigger] out[a]).pending.len()
        <= capacity by {
        if a < subscribers.len() {
            assert(subscribers[a].pending.len() <= capacity);
        }
    }
}

/// A session that is detached can be attached again.
pub proof fn law_unsubscribe_then_subscribe(
    subscribers: Seq<SubscriberView>,
    capacity: nat,
    id: SessionId,
)
    requires
        well_formed(subscribers, capacity),
    ensures
        !is_registered(after_unsubscribe(subscribers, id), id),
        well_formed(after_subscribe(after_unsubscribe(subscribers, id), id), capacity),
{
    law_unsubscribe_is_idempotent(subscribers, capacity, id);
    if is_registered(subscribers, id) {
        lemma_remove_keeps_well_formed(subscribers, capacity, position_of(subscribers, id));
    }
    lemma_subscribe_keeps_well_formed(after_unsubscribe(subscribers, id), capacity, id);
}

/// Whatever is done to a registry, no session gets two entries and no
/// entry gets more pending than the queue capacity.
pub proof fn law_registry_stays_well_formed(
    subscribers: Seq<SubscriberView>,
    capacity: nat,
    id: SessionId,
    message: MessageView,
)
    requires
        well_formed(subscribers, capacity),
    ensures
        !is_registered(subscribers, id) ==> well_formed(
            after_subscribe(subscribers, id),
            capacity,
        ),
        well_formed(after_unsubscribe(subscribers, id), capacity),
        well_formed(after_publish(subscribers, capacity, message), capacity),
        well_formed(after_receive(subscribers, id), capacity),
{
    if !is_registered(subscribers, id) {
        lemma_subscribe_keeps_well_formed(subscribers, capacity, id);
    } else {
        lemma_remove_keeps_well_formed(subscribers, capacity, position_of(subscribers, id));
    }
    lemma_publish_keeps_well_formed(subscribers, capacity, message);
    lemma_receive_keeps_well_formed(subscribers, capacity, id);
}

/// A publish detaches a session whose queue is full, whatever it holds,
/// and still reaches every session that has room.
pub proof fn law_saturated_subscriber_is_dropped(
    subscribers: Seq<SubscriberView>,
    capacity: nat,
    message: MessageView,
    slow: SessionId,
    healthy: SessionId,
)
    requires
        well_formed(subscribers, capacity),
        is_registered(subscribers, slow),
        pending_of(subscribers, slow).len() == capacity,
        is_registered(subscribers, healthy),
        pending_of(subscribers, healthy).len() < capacity,
    ensures
        !is_registered(after_publish(subscribers, capacity, message), slow),
        is_registered(after_publish(subscribers, capacity, message), healthy),
        pending_of(after_publish(subscribers, capacity, message), healthy) == pending_of(
            subscribers,
            healthy,
        ).push(message),
        well_formed(after_publish(subscribers, capacity, message), capacity),
{
    law_publish_reaches_those_with_room(subscribers, capacity, message, slow);
    law_publish_reaches_those_with_room(subscribers, capacity, message, healthy);
    lemma_publish_keeps_well_formed(subscribers, capacity, message);
}

} // verus!
