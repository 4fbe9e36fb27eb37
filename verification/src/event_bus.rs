//! The intake queue for normalized events.
//!
//! Events leave the bus in the order in which they entered it, all at once.

use crate::domain::{event_views, Event, EventView};
use std::collections::VecDeque;
use vstd::prelude::*;

verus! {

/// The queue after `e` was emitted into the queue `q`.
pub open spec fn after_emit(q: Seq<EventView>, e: EventView) -> Seq<EventView> {
    q.push(e)
}

/// What a drain of the queue `q` returns.
pub open spec fn drained(q: Seq<EventView>) -> Seq<EventView> {
    q
}

/// The queue that a drain leaves behind.
pub open spec fn after_drain(q: Seq<EventView>) -> Seq<EventView> {
    Seq::empty()
}

/// Emitting two events into an empty bus and draining it yields exactly
/// those two events, first emitted first, and a second drain yields nothing.
pub proof fn law_emit_emit_drain(e1: EventView, e2: EventView)
    ensures
        drained(after_emit(after_emit(Seq::empty(), e1), e2)) == seq![e1, e2],
        drained(after_drain(after_emit(after_emit(Seq::empty(), e1), e2))) == Seq::<
            EventView,
        >::empty(),
{
}

/// Whatever the bus held, a drain returns what was queued followed by what
/// was emitted since, in emission order, and leaves nothing behind.
pub proof fn law_nothing_lost(q: Seq<EventView>, emitted: Seq<EventView>)
    ensures
        drained(emit_all(q, emitted)) == q + emitted,
        drained(after_drain(emit_all(q, emitted))).len() == 0,
    decreases emitted.len(),
{
    if emitted.len() > 0 {
        law_nothing_lost(q, emitted.drop_last());
    }
}

/// The queue after each event of `es` was emitted into `q`, in order.
pub open spec fn emit_all(q: Seq<EventView>, es: Seq<EventView>) -> Seq<EventView>
    decreases es.len(),
{
    if es.len() == 0 {
        q
    } else {
        after_emit(emit_all(q, es.drop_last()), es.last())
    }
}

/// Single-process FIFO queue of events that await synthesis.
#[derive(Debug)]
pub struct EventBus {
    queue: VecDeque<Event>,
}

impl View for EventBus {
    type V = Seq<EventView>;

    closed spec fn view(&self) -> Seq<EventView> {
        event_views(self.queue@)
    }
}

impl EventBus {
    /// An empty bus.
    pub fn new() -> (bus: Self)
        ensures
            bus@ == Seq::<EventView>::empty(),
    {
        let bus = EventBus { queue: VecDeque::new() };
        bus
    }

    /// Appends `event` to the tail of the queue.
    pub fn emit(&mut self, event: Event)
        ensures
            final(self)@ == after_emit(old(self)@, event@),
    {
        self.queue.push_back(event);
    }

    /// Removes and returns every queued event, in emission order.
    pub fn drain(&mut self) -> (batch: Vec<Event>)
        ensures
            event_views(batch@) == drained(old(self)@),
            final(self)@ == after_drain(old(self)@),
    {
        let mut batch: Vec<Event> = Vec::new();
        let ghost start = self.queue@;
        loop
            invariant
                start == old(self).queue@,
                batch@.len() + self.queue@.len() == start.len(),
                batch@ == start.subrange(0, batch@.len() as int),
                self.queue@ == start.subrange(batch@.len() as int, start.len() as int),
            ensures
                self.queue@.len() == 0,
                batch@ == start,
            decreases self.queue@.len(),
        {
            match self.queue.pop_front() {
                Some(e) => {
                    batch.push(e);
                    assert(self.queue@ =~= start.subrange(
                        batch@.len() as int,
                        start.len() as int,
                    ));
                },
                None => {
                    break ;
                },
            }
        }
        batch
    }

    /// Whether no event is queued.
    pub fn is_empty(&self) -> (r: bool)
        ensures
            r == (self@.len() == 0),
    {
        self.queue.len() == 0
    }
}

impl Default for EventBus {
    fn default() -> (bus: Self)
        ensures
            bus@ == Seq::<EventView>::empty(),
    {
        EventBus::new()
    }
}

} // verus!
