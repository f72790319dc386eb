//! The broadcast bus: one publish reaches every live subscriber.
//!
//! Each subscriber has a first-in, first-out buffer of bounded size. An
//! event published while a subscriber's buffer is full is dropped for that
//! subscriber alone; the publisher never waits. A subscriber sees only
//! what is published after it subscribed.

use crate::wire::{ChatEvent, EventModel};
use std::collections::VecDeque;
use vstd::prelude::*;

verus! {

/// The bus as mathematics: the pending events of each live subscriber.
pub struct BusModel {
    /// The most events that one subscriber's buffer holds.
    pub capacity: nat,
    /// How many handles were handed out so far: `0`, .., `issued - 1`.
    pub issued: nat,
    /// The buffer of each live subscriber, oldest event first.
    pub queues: Map<nat, Seq<EventModel>>,
}

impl BusModel {
    /// Validity: live handles were handed out, and no buffer exceeds the
    /// capacity.
    pub open spec fn wf(self) -> bool {
        &&& forall|h: nat| #[trigger] self.queues.dom().contains(h) ==> h < self.issued
        &&& forall|h: nat| #[trigger]
            self.queues.dom().contains(h) ==> self.queues[h].len() <= self.capacity
    }

    /// A bus without subscribers.
    pub open spec fn empty(capacity: nat) -> BusModel {
        BusModel { capacity, issued: 0, queues: Map::empty() }
    }

    /// Whether `handle` is subscribed.
    pub open spec fn live(self, handle: nat) -> bool {
        self.queues.dom().contains(handle)
    }

    /// The bus after a new subscriber got the handle `self.issued` and an
    /// empty buffer.
    pub open spec fn subscribe(self) -> BusModel {
        BusModel {
            capacity: self.capacity,
            issued: self.issued + 1,
            queues: self.queues.insert(self.issued, Seq::empty()),
        }
    }

    /// One buffer after `event` was offered to it: appended where there is
    /// room, dropped where there is none.
    pub open spec fn offer(self, queue: Seq<EventModel>, event: EventModel) -> Seq<EventModel> {
        if queue.len() < self.capacity {
            queue.push(event)
        } else {
            queue
        }
    }

    /// The bus after `event` was offered to every live subscriber.
    pub open spec fn publish(self, event: EventModel) -> BusModel {
        BusModel {
            capacity: self.capacity,
            issued: self.issued,
            queues: Map::new(
                |h: nat| self.queues.dom().contains(h),
                |h: nat| self.offer(self.queues[h], event),
            ),
        }
    }

    /// The bus after `handle` took its oldest pending event, if it has one.
    pub open spec fn take(self, handle: nat) -> BusModel {
        if self.live(handle) && self.queues[handle].len() > 0 {
            BusModel {
                capacity: self.capacity,
                issued: self.issued,
                queues: self.queues.insert(handle, self.queues[handle].drop_first()),
            }
        } else {
            self
        }
    }

    /// The bus after `handle` was given up.
    pub open spec fn unsubscribe(self, handle: nat) -> BusModel {
        BusModel {
            capacity: self.capacity,
            issued: self.issued,
            queues: self.queues.remove(handle),
        }
    }
}

/// The receiving side of one subscription.
#[derive(Debug, Clone, Copy, PartialEq, Eq, Structural)]
pub struct ReceiveHandle {
    id: usize,
}

impl View for ReceiveHandle {
    type V = nat;

    closed spec fn view(&self) -> nat {
        self.id as nat
    }
}

impl ReceiveHandle {
    /// The number by which the bus knows this handle.
    pub fn id(&self) -> (id: usize)
        ensures
            id == self@,
    {
        self.id
    }
}

/// What a subscriber finds when it asks for its next event.
#[derive(Debug, PartialEq, Eq)]
pub enum Received {
    /// The oldest pending event, now removed from the buffer.
    Event(ChatEvent),
    /// The subscription is live and nothing is pending.
    Empty,
    /// The handle is not subscribed.
    Closed,
}

struct Slot {
    live: bool,
    pending: VecDeque<ChatEvent>,
}

/// The events of a buffer as mathematics.
pub open spec fn events_of(pending: Seq<ChatEvent>) -> Seq<EventModel> {
    Seq::new(pending.len(), |i: int| pending[i]@)
}

/// A fan-out channel for chat events with bounded per-subscriber buffers.
pub struct BroadcastBus {
    capacity: usize,
    slots: Vec<Slot>,
}

impl BroadcastBus {
    /// The bus as mathematics.
    pub closed spec fn view(&self) -> BusModel {
        BusModel {
            capacity: self.capacity as nat,
            issued: self.slots.len() as nat,
            queues: Map::new(
                |h: nat| h < self.slots.len() && self.slots[h as int].live,
                |h: nat| events_of(self.slots[h as int].pending@),
            ),
        }
    }

    /// Validity: no buffer exceeds the capacity.
    pub closed spec fn wf(&self) -> bool {
        forall|i: int|
            0 <= i < self.slots.len() ==> (#[trigger] self.slots[i]).pending@.len()
                <= self.capacity
    }

    /// A valid bus has a valid model.
    pub proof fn lemma_wf(&self)
        requires
            self.wf(),
        ensures
            self@.wf(),
    {
        assert forall|h: nat| #[trigger] self@.queues.dom().contains(h) implies self@.queues[h].len()
            <= self@.capacity by {
            assert(self.slots[h as int].pending@.len() <= self.capacity);
        }
    }

    /// A bus without subscribers whose buffers will hold up to `capacity`
    /// events each.
    pub fn new(capacity: usize) -> (bus: BroadcastBus)
        ensures
            bus.wf(),
            bus@ == BusModel::empty(capacity as nat),
    {
        let bus = BroadcastBus { capacity, slots: Vec::new() };
        assert(bus@.queues =~= Map::<nat, Seq<EventModel>>::empty());
        bus
    }

    /// The most events that one subscriber's buffer holds.
    pub fn capacity(&self) -> (capacity: usize)
        ensures
            capacity == self@.capacity,
    {
        self.capacity
    }

    /// Adds a subscriber. Its handle is new, and its buffer starts empty:
    /// nothing published before this call will reach it.
    pub fn subscribe(&mut self) -> (handle: ReceiveHandle)
        requires
            old(self).wf(),
        ensures
            final(self).wf(),
            handle@ == old(self)@.issued,
            !old(self)@.live(handle@),
            final(self)@ == old(self)@.subscribe(),
    {
        let id = self.slots.len();
        self.slots.push(Slot { live: true, pending: VecDeque::new() });
        proof {
            assert(events_of(self.slots[id as int].pending@) =~= Seq::<EventModel>::empty());
            assert(self@.queues =~= old(self)@.subscribe().queues);
        }
        ReceiveHandle { id }
    }

    /// Offers `event` to every live subscriber, in one step. A subscriber
    /// whose buffer is full misses the event; all others get it appended
    /// behind what they have pending.
    pub fn publish(&mut self, event: &ChatEvent)
        requires
            old(self).wf(),
        ensures
            final(self).wf(),
            final(self)@ == old(self)@.publish(event@),
    {
        let mut i: usize = 0;
        while i < self.slots.len()
            invariant
                i <= self.slots.len(),
                self.wf(),
                self.capacity == old(self).capacity,
                self.slots.len() == old(self).slots.len(),
                forall|j: int|
                    0 <= j < i ==> (#[trigger] self.slots[j]).live == old(self).slots[j].live,
                forall|j: int|
                    0 <= j < i && old(self).slots[j].live ==> events_of(
                        (#[trigger] self.slots[j]).pending@,
                    ) == old(self)@.offer(events_of(old(self).slots[j].pending@), event@),
                forall|j: int| i <= j < self.slots.len() ==> self.slots[j] == old(self).slots[j],
            decreases self.slots.len() - i,
        {
            if self.slots[i].live && self.slots[i].pending.len() < self.capacity {
                let ghost before = self.slots[i as int].pending@;
                self.slots[i].pending.push_back(event.duplicate());
                assert(events_of(self.slots[i as int].pending@) =~= events_of(before).push(
                    event@,
                ));
            }
            i += 1;
        }
        assert(self@.queues =~= old(self)@.publish(event@).queues);
    }

    /// Takes the oldest pending event of `handle`, if there is one.
    pub fn try_recv(&mut self, handle: ReceiveHandle) -> (received: Received)
        requires
            old(self).wf(),
        ensures
            final(self).wf(),
            final(self)@ == old(self)@.take(handle@),
            match received {
                Received::Event(event) => old(self)@.live(handle@) && old(self)@.queues[handle@].len()
                    > 0 && event@ == old(self)@.queues[handle@][0],
                Received::Empty => old(self)@.live(handle@) && old(self)@.queues[handle@].len()
                    == 0,
                Received::Closed => !old(self)@.live(handle@),
            },
    {
        let i = handle.id;
        if i >= self.slots.len() || !self.slots[i].live {
            return Received::Closed;
        }
        let ghost before = self.slots[i as int].pending@;
        match self.slots[i].pending.pop_front() {
            Some(event) => {
                proof {
                    assert(events_of(self.slots[i as int].pending@) =~= events_of(
                        before,
                    ).drop_first());
                    assert(self@.queues =~= old(self)@.take(handle@).queues);
                }
                Received::Event(event)
            },
            None => {
                assert(self@.queues =~= old(self)@.queues);
                Received::Empty
            },
        }
    }

    /// Gives `handle` up and drops what it had pending. Giving up a handle
    /// that is not subscribed changes nothing.
    pub fn unsubscribe(&mut self, handle: ReceiveHandle)
        requires
            old(self).wf(),
        ensures
            final(self).wf(),
            final(self)@ == old(self)@.unsubscribe(handle@),
    {
        let i = handle.id;
        if i < self.slots.len() {
            self.slots[i].live = false;
            self.slots[i].pending.clear();
        }
        assert(self@.queues =~= old(self)@.unsubscribe(handle@).queues);
    }

    /// Whether `handle` is subscribed.
    pub fn is_live(&self, handle: ReceiveHandle) -> (live: bool)
        ensures
            live == self@.live(handle@),
    {
        handle.id < self.slots.len() && self.slots[handle.id].live
    }

    /// How many events `handle` has pending; zero for a handle that is not
    /// subscribed. It is never more than the capacity.
    pub fn pending(&self, handle: ReceiveHandle) -> (count: usize)
        requires
            self.wf(),
        ensures
            count == if self@.live(handle@) {
                self@.queues[handle@].len()
            } else {
                0
            },
            count <= self@.capacity,
    {
        proof {
            self.lemma_wf();
        }
        if handle.id < self.slots.len() && self.slots[handle.id].live {
            self.slots[handle.id].pending.len()
        } else {
            0
        }
    }
}

} // verus!
