//! Publishing traces to live subscribers.
//!
//! Every subscriber has a buffer of bounded size. A published trace is
//! offered once to each connected subscriber, as that subscriber may see it;
//! a subscriber that falls behind loses its oldest buffered items, and the
//! publisher never waits.

use crate::app_state::last_items;
use crate::domain::{ReasoningTrace, TraceView};
use crate::text::opt_view;
use crate::visibility::{deliver, delivered};
use std::collections::VecDeque;
use vstd::prelude::*;

verus! {

/// What a subscriber receives.
#[derive(Debug)]
pub enum Delivery {
    /// The acknowledgment that the subscription stands.
    Connected,
    /// A trace, as the subscriber may see it.
    Trace(ReasoningTrace),
}

/// Mathematical content of a [`Delivery`].
pub enum DeliveryView {
    Connected,
    Trace(TraceView),
}

impl View for Delivery {
    type V = DeliveryView;

    open spec fn view(&self) -> DeliveryView {
        match self {
            Delivery::Connected => DeliveryView::Connected,
            Delivery::Trace(t) => DeliveryView::Trace(t@),
        }
    }
}

/// The views of a sequence of deliveries.
pub open spec fn delivery_views(v: Seq<Delivery>) -> Seq<DeliveryView> {
    v.map_values(|d: Delivery| d@)
}

/// Mathematical content of a subscriber: who views, whether the subscriber
/// is still connected, and what is buffered for it, oldest first.
pub struct SubscriberView {
    pub viewer: Option<Seq<char>>,
    pub connected: bool,
    pub pending: Seq<DeliveryView>,
}

/// Mathematical content of a broadcaster.
pub struct BroadcasterView {
    pub capacity: nat,
    pub subscribers: Seq<SubscriberView>,
}

/// A buffer after `item` was put into it: the item comes last, and of the
/// whole only the newest `capacity` items stay.
pub open spec fn buffered(pending: Seq<DeliveryView>, item: DeliveryView, capacity: nat) -> Seq<
    DeliveryView,
> {
    last_items(pending.push(item), capacity)
}

/// A subscriber after the trace `t` was published: a connected subscriber
/// that may see the trace has it buffered, as it may see it; any other is as
/// it was.
pub open spec fn after_offer(s: SubscriberView, t: TraceView, capacity: nat) -> SubscriberView {
    if s.connected {
        match delivered(t, s.viewer) {
            Some(seen) => SubscriberView {
                pending: buffered(s.pending, DeliveryView::Trace(seen), capacity),
                ..s
            },
            None => s,
        }
    } else {
        s
    }
}

/// A broadcaster after the trace `t` was published.
pub open spec fn after_publish(b: BroadcasterView, t: TraceView) -> BroadcasterView {
    BroadcasterView {
        subscribers: b.subscribers.map_values(|s: SubscriberView| after_offer(s, t, b.capacity)),
        ..b
    }
}

/// A new subscriber: connected, with nothing buffered but the
/// acknowledgment.
pub open spec fn newcomer(viewer: Option<Seq<char>>, capacity: nat) -> SubscriberView {
    SubscriberView {
        viewer,
        connected: true,
        pending: buffered(Seq::empty(), DeliveryView::Connected, capacity),
    }
}

/// The number that the next subscriber gets: that of the first subscriber
/// that has disconnected, or the next unused number.
pub open spec fn free_number(subscribers: Seq<SubscriberView>) -> int
    decreases subscribers.len(),
{
    if subscribers.len() == 0 {
        0
    } else if !subscribers[0].connected {
        0
    } else {
        1 + free_number(subscribers.drop_first())
    }
}

/// The subscribers after one more has connected under the free number.
pub open spec fn with_newcomer(
    subscribers: Seq<SubscriberView>,
    viewer: Option<Seq<char>>,
    capacity: nat,
) -> Seq<SubscriberView> {
    let id = free_number(subscribers);
    if id < subscribers.len() {
        subscribers.update(id, newcomer(viewer, capacity))
    } else {
        subscribers.push(newcomer(viewer, capacity))
    }
}

/// A position before which every subscriber is connected, and that holds a
/// disconnected one or is the end, is the free number.
pub proof fn lemma_free_number(subscribers: Seq<SubscriberView>, i: int)
    requires
        0 <= i <= subscribers.len(),
        forall|j: int| 0 <= j < i ==> subscribers[j].connected,
        i < subscribers.len() ==> !subscribers[i].connected,
    ensures
        free_number(subscribers) == i,
    decreases subscribers.len(),
{
    if subscribers.len() > 0 && i > 0 {
        let t = subscribers.drop_first();
        lemma_free_number(t, i - 1);
    }
}

/// No buffer holds more than the capacity allows.
pub open spec fn bounded(b: BroadcasterView) -> bool {
    forall|i: int|
        0 <= i < b.subscribers.len() ==> (#[trigger] b.subscribers[i]).pending.len() <= b.capacity
}

/// A buffer never outgrows the capacity, keeps the order of its items, and
/// on overflow loses its oldest items only: what stays is the end of what
/// there would be without a bound.
pub proof fn law_buffer_drops_oldest(pending: Seq<DeliveryView>, item: DeliveryView, capacity: nat)
    ensures
        buffered(pending, item, capacity).len() <= capacity,
        pending.len() < capacity ==> buffered(pending, item, capacity) == pending.push(item),
        exists|k: int|
            0 <= k <= pending.len() + 1 && buffered(pending, item, capacity) == pending.push(
                item,
            ).skip(k),
        capacity > 0 ==> buffered(pending, item, capacity).last() == item,
{
    let all = pending.push(item);
    if all.len() <= capacity {
        assert(buffered(pending, item, capacity) =~= all.skip(0));
    }
}

/// Publishing offers the trace once to each subscriber: no buffer gains
/// more than one item, a subscriber without identity and a disconnected one
/// gain none, nobody is added or removed, and the bound is kept.
pub proof fn law_publish_offers_once(b: BroadcasterView, t: TraceView)
    requires
        bounded(b),
    ensures
        bounded(after_publish(b, t)),
        after_publish(b, t).subscribers.len() == b.subscribers.len(),
        forall|i: int|
            0 <= i < b.subscribers.len() ==> {
                let before = b.subscribers[i];
                let after = #[trigger] after_publish(b, t).subscribers[i];
                &&& after.viewer == before.viewer
                &&& after.connected == before.connected
                &&& after.pending.len() <= before.pending.len() + 1
                &&& before.viewer.is_none() || !before.connected ==> after == before
                &&& before.connected && delivered(t, before.viewer).is_none() ==> after == before
            },
{
}

/// One subscriber.
#[derive(Debug)]
struct Subscriber {
    viewer: Option<String>,
    connected: bool,
    pending: VecDeque<Delivery>,
}

impl View for Subscriber {
    type V = SubscriberView;

    closed spec fn view(&self) -> SubscriberView {
        SubscriberView {
            viewer: opt_view(self.viewer),
            connected: self.connected,
            pending: delivery_views(self.pending@),
        }
    }
}

/// Puts `item` into a buffer and drops the oldest items beyond `capacity`.
fn put(pending: &mut VecDeque<Delivery>, item: Delivery, capacity: usize)
    ensures
        delivery_views(final(pending)@) == buffered(
            delivery_views(old(pending)@),
            item@,
            capacity as nat,
        ),
{
    let ghost all = delivery_views(pending@).push(item@);
    pending.push_back(item);
    while pending.len() > capacity
        invariant
            pending@.len() <= all.len(),
            pending@.len() >= capacity || pending@.len() == all.len(),
            delivery_views(pending@) == all.skip(all.len() - pending@.len()),
        decreases pending@.len(),
    {
        let ghost before = delivery_views(pending@);
        let _ = pending.pop_front();
        assert(delivery_views(pending@) =~= before.skip(1));
    }
}

/// The views of a sequence of subscribers.
spec fn subscriber_views(v: Seq<Subscriber>) -> Seq<SubscriberView> {
    v.map_values(|s: Subscriber| s@)
}

/// Fans traces out to subscribers through bounded buffers.
#[derive(Debug)]
pub struct TraceBroadcaster {
    capacity: usize,
    subscribers: Vec<Subscriber>,
}

impl View for TraceBroadcaster {
    type V = BroadcasterView;

    closed spec fn view(&self) -> BroadcasterView {
        BroadcasterView {
            capacity: self.capacity as nat,
            subscribers: subscriber_views(self.subscribers@),
        }
    }
}

impl TraceBroadcaster {
    /// No buffer holds more than the capacity allows.
    #[verifier::type_invariant]
    pub closed spec fn wf(&self) -> bool {
        bounded(self@)
    }

    /// A broadcaster without subscribers whose buffers hold up to `capacity`
    /// items each.
    pub fn new(capacity: usize) -> (b: Self)
        ensures
            bounded(b@),
            b@ == (BroadcasterView { capacity: capacity as nat, subscribers: Seq::empty() }),
    {
        let b = TraceBroadcaster { capacity, subscribers: Vec::new() };
        assert(b@.subscribers =~= Seq::<SubscriberView>::empty());
        b
    }

    /// How many items a buffer holds at most.
    pub fn capacity(&self) -> (n: usize)
        ensures
            n == self@.capacity,
    {
        self.capacity
    }

    /// How many numbers are in use or were in use.
    pub fn subscriber_count(&self) -> (n: usize)
        ensures
            n == self@.subscribers.len(),
            bounded(self@),
    {
        proof {
            use_type_invariant(self);
        }
        self.subscribers.len()
    }

    /// Connects a subscriber and returns its number, which may have been
    /// that of a subscriber that has disconnected. The subscriber starts
    /// with the acknowledgment in its buffer and with nothing of what was
    /// published before.
    pub fn subscribe(&mut self, viewer: Option<String>) -> (id: usize)
        ensures
            bounded(final(self)@),
            id == free_number(old(self)@.subscribers),
            final(self)@ == (BroadcasterView {
                subscribers: with_newcomer(
                    old(self)@.subscribers,
                    opt_view(viewer),
                    old(self)@.capacity,
                ),
                ..old(self)@
            }),
    {
        proof {
            use_type_invariant(&*self);
        }
        let mut pending: VecDeque<Delivery> = VecDeque::new();
        assert(delivery_views(pending@) =~= Seq::<DeliveryView>::empty());
        put(&mut pending, Delivery::Connected, self.capacity);
        let mut id: usize = 0;
        while id < self.subscribers.len() && self.subscribers[id].connected
            invariant
                id <= self.subscribers@.len(),
                forall|j: int| 0 <= j < id ==> subscriber_views(self.subscribers@)[j].connected,
            decreases self.subscribers@.len() - id,
        {
            id += 1;
        }
        proof {
            lemma_free_number(subscriber_views(self.subscribers@), id as int);
        }
        let mut subscribers: Vec<Subscriber> = Vec::new();
        std::mem::swap(&mut subscribers, &mut self.subscribers);
        let ghost before = subscriber_views(subscribers@);
        let s = Subscriber { viewer, connected: true, pending };
        if id < subscribers.len() {
            subscribers.set(id, s);
            assert(subscriber_views(subscribers@) =~= before.update(id as int, s@));
        } else {
            subscribers.push(s);
            assert(subscriber_views(subscribers@) =~= before.push(s@));
        }
        proof {
            law_buffer_drops_oldest(Seq::empty(), DeliveryView::Connected, self.capacity as nat);
        }
        self.subscribers = subscribers;
        id
    }

    /// Disconnects the subscriber with number `id` and empties its buffer.
    /// An unknown number changes nothing.
    pub fn disconnect(&mut self, id: usize)
        ensures
            bounded(final(self)@),
            final(self)@ == (if id < old(self)@.subscribers.len() {
                BroadcasterView {
                    subscribers: old(self)@.subscribers.update(
                        id as int,
                        SubscriberView {
                            connected: false,
                            pending: Seq::empty(),
                            ..old(self)@.subscribers[id as int]
                        },
                    ),
                    ..old(self)@
                }
            } else {
                old(self)@
            }),
    {
        proof {
            use_type_invariant(&*self);
        }
        if id >= self.subscribers.len() {
            return ;
        }
        let mut subscribers: Vec<Subscriber> = Vec::new();
        std::mem::swap(&mut subscribers, &mut self.subscribers);
        let ghost before = subscriber_views(subscribers@);
        let gone = subscribers.remove(id);
        let s = Subscriber { viewer: gone.viewer, connected: false, pending: VecDeque::new() };
        assert(delivery_views(s.pending@) =~= Seq::<DeliveryView>::empty());
        subscribers.insert(id, s);
        proof {
            assert(subscriber_views(subscribers@) =~= before.update(id as int, s@));
        }
        self.subscribers = subscribers;
    }

    /// Publishes a trace: offers it once to each connected subscriber, as
    /// that subscriber may see it. A subscriber whose buffer is full loses
    /// its oldest items.
    pub fn publish(&mut self, trace: &ReasoningTrace)
        ensures
            bounded(final(self)@),
            final(self)@ == after_publish(old(self)@, trace@),
    {
        proof {
            use_type_invariant(&*self);
            law_publish_offers_once(self@, trace@);
        }
        let capacity = self.capacity;
        let mut subscribers: Vec<Subscriber> = Vec::new();
        std::mem::swap(&mut subscribers, &mut self.subscribers);
        let ghost before = subscriber_views(subscribers@);
        let mut out: Vec<Subscriber> = Vec::new();
        for s in it: subscribers
            invariant
                subscriber_views(it.seq()) == before,
                subscriber_views(out@) == before.take(it.index() as int).map_values(
                    |v: SubscriberView| after_offer(v, trace@, capacity as nat),
                ),
        {
            let ghost done = subscriber_views(out@);
            let mut s = s;
            if s.connected {
                let viewer: Option<&str> = match &s.viewer {
                    Some(v) => Some(v.as_str()),
                    None => None,
                };
                match deliver(trace, viewer) {
                    Some(seen) => {
                        put(&mut s.pending, Delivery::Trace(seen), capacity);
                    },
                    None => {},
                }
            }
            out.push(s);
            assert(subscriber_views(out@) =~= done.push(s@));
            assert(subscriber_views(out@) =~= before.take(it.index() + 1).map_values(
                |v: SubscriberView| after_offer(v, trace@, capacity as nat),
            ));
        }
        assert(before.take(before.len() as int) =~= before);
        self.subscribers = out;
    }

    /// Hands over what is buffered for the subscriber with number `id`,
    /// oldest first, and empties the buffer. An unknown number has nothing
    /// buffered.
    pub fn receive(&mut self, id: usize) -> (batch: Vec<Delivery>)
        ensures
            bounded(final(self)@),
            id < old(self)@.subscribers.len() ==> {
                &&& delivery_views(batch@) == old(self)@.subscribers[id as int].pending
                &&& final(self)@ == (BroadcasterView {
                    subscribers: old(self)@.subscribers.update(
                        id as int,
                        SubscriberView {
                            pending: Seq::empty(),
                            ..old(self)@.subscribers[id as int]
                        },
                    ),
                    ..old(self)@
                })
            },
            id >= old(self)@.subscribers.len() ==> batch@.len() == 0 && final(self)@ == old(
                self,
            )@,
    {
        proof {
            use_type_invariant(&*self);
        }
        let mut batch: Vec<Delivery> = Vec::new();
        if id >= self.subscribers.len() {
            return batch;
        }
        let mut subscribers: Vec<Subscriber> = Vec::new();
        std::mem::swap(&mut subscribers, &mut self.subscribers);
        let ghost before = subscriber_views(subscribers@);
        let taken = subscribers.remove(id);
        let mut pending = taken.pending;
        let ghost all = delivery_views(pending@);
        while pending.len() > 0
            invariant
                batch@.len() + pending@.len() == all.len(),
                delivery_views(batch@) == all.take(batch@.len() as int),
                delivery_views(pending@) == all.skip(batch@.len() as int),
            decreases pending@.len(),
        {
            let ghost left = delivery_views(pending@);
            let d = pending.pop_front().unwrap();
            assert(left[0] == d@);
            batch.push(d);
            assert(delivery_views(pending@) =~= left.skip(1));
        }
        let s = Subscriber { viewer: taken.viewer, connected: taken.connected, pending };
        assert(delivery_views(s.pending@) =~= Seq::<DeliveryView>::empty());
        subscribers.insert(id, s);
        proof {
            assert(subscriber_views(subscribers@) =~= before.update(id as int, s@));
        }
        self.subscribers = subscribers;
        batch
    }
}

} // verus!
