use vstd::prelude::*;

verus! {

/// An entry of the event queue.
pub enum Event<P> {
    /// The meta event that opens every batch (`OMNILED.Update`), with the batch number.
    Update(u64),
    /// Any other event.
    Other(P),
}

/// The queue that collects events between two ticks of the event loop.
///
/// Every batch starts with an `Update` event carrying the batch number; events pushed to
/// the front go before it, in the order they were pushed.
pub struct EventQueue<P> {
    queue: Vec<Event<P>>,
    front: usize,
    counter: u64,
}

impl<P> EventQueue<P> {
    pub closed spec fn events(&self) -> Seq<Event<P>> {
        self.queue@
    }

    /// How many events were pushed to the front of the current batch.
    pub closed spec fn front(&self) -> nat {
        self.front as nat
    }

    /// The number of the current batch.
    pub closed spec fn counter(&self) -> u64 {
        self.counter
    }

    pub closed spec fn wf(&self) -> bool {
        batch_shape(self.queue@, self.front as int, self.counter)
    }

    pub fn new() -> (r: Self)
        ensures
            r.wf(),
            r.events() == seq![Event::<P>::Update(0)],
            r.front() == 0,
            r.counter() == 0,
    {
        Self { queue: Self::get_default_event_queue(0), front: 0, counter: 0 }
    }

    /// Appends `event` at the back.
    pub fn push(&mut self, event: P)
        requires
            old(self).wf(),
        ensures
            final(self).wf(),
            final(self).events() == old(self).events().push(Event::Other(event)),
            final(self).front() == old(self).front(),
            final(self).counter() == old(self).counter(),
    {
        self.queue.push(Event::Other(event));
    }

    /// Inserts `event` after the events already pushed to the front of this batch.
    pub fn push_front(&mut self, event: P)
        requires
            old(self).wf(),
        ensures
            final(self).wf(),
            final(self).events() == old(self).events().insert(
                old(self).front() as int,
                Event::Other(event),
            ),
            final(self).front() == old(self).front() + 1,
            final(self).counter() == old(self).counter(),
    {
        let ghost before = self.queue@;
        self.queue.insert(self.front, Event::Other(event));
        let len = self.queue.len();
        assert(self.front < len);
        assert forall|i: int| 0 <= i < self.queue@.len() && i != self.front + 1 implies (
        #[trigger] self.queue@[i]) is Other by {
            if i > self.front {
                assert(self.queue@[i] == before[i - 1]);
            }
        }
        self.front = self.front + 1;
    }

    /// Hands out the current batch and starts the next one.
    pub fn get_events(&mut self) -> (r: Vec<Event<P>>)
        requires
            old(self).wf(),
            old(self).counter() < u64::MAX,
        ensures
            final(self).wf(),
            r@ == old(self).events(),
            batch_shape(r@, old(self).front() as int, old(self).counter()),
            final(self).counter() == old(self).counter() + 1,
            final(self).events() == seq![Event::<P>::Update(final(self).counter())],
            final(self).front() == 0,
    {
        self.front = 0;
        self.counter = self.counter + 1;
        let mut events: Vec<Event<P>> = Self::get_default_event_queue(self.counter);
        std::mem::swap(&mut events, &mut self.queue);
        events
    }

    fn get_default_event_queue(counter: u64) -> (r: Vec<Event<P>>)
        ensures
            r@ == seq![Event::<P>::Update(counter)],
    {
        let mut v = Vec::new();
        v.push(Event::Update(counter));
        v
    }
}

/// The shape of every batch: one `Update` event carrying the batch number, with the
/// events pushed to the front (`front` of them) before it and all other events after it.
pub open spec fn batch_shape<P>(events: Seq<Event<P>>, front: int, counter: u64) -> bool {
    &&& 0 <= front < events.len()
    &&& events[front] == Event::<P>::Update(counter)
    &&& forall|i: int| 0 <= i < events.len() && i != front ==> (#[trigger] events[i]) is Other
}

/// Events pushed to the front come out in the order they were pushed, ahead of the
/// events that were in the batch before them.
pub proof fn lemma_push_front_order<P>(events: Seq<Event<P>>, front: int, a: P, b: P)
    requires
        0 <= front <= events.len(),
    ensures
        events.insert(front, Event::Other(a)).insert(front + 1, Event::Other(b))
            =~= events.take(front) + seq![Event::Other(a), Event::Other(b)] + events.skip(front),
{
}

/// One call on a queue: `push` or `push_front` of an event.
pub enum QueueCall<P> {
    Push(P),
    PushFront(P),
}

/// The events and the count of front events after `call`, as `push` and `push_front`
/// state it.
pub open spec fn after_call<P>(events: Seq<Event<P>>, front: int, call: QueueCall<P>) -> (
    Seq<Event<P>>,
    int,
) {
    match call {
        QueueCall::Push(p) => (events.push(Event::Other(p)), front),
        QueueCall::PushFront(p) => (events.insert(front, Event::Other(p)), front + 1),
    }
}

/// The events and the count of front events after `calls`, in order.
pub open spec fn after_calls<P>(events: Seq<Event<P>>, front: int, calls: Seq<QueueCall<P>>) -> (
    Seq<Event<P>>,
    int,
)
    decreases calls.len(),
{
    if calls.len() == 0 {
        (events, front)
    } else {
        let (e, f) = after_call(events, front, calls[0]);
        after_calls(e, f, calls.drop_first())
    }
}

/// The events given with `push_front` among `calls`, in call order.
pub open spec fn front_events<P>(calls: Seq<QueueCall<P>>) -> Seq<Event<P>>
    decreases calls.len(),
{
    if calls.len() == 0 {
        seq![]
    } else {
        match calls[0] {
            QueueCall::PushFront(p) => seq![Event::Other(p)] + front_events(calls.drop_first()),
            QueueCall::Push(_) => front_events(calls.drop_first()),
        }
    }
}

/// The events given with `push` among `calls`, in call order.
pub open spec fn back_events<P>(calls: Seq<QueueCall<P>>) -> Seq<Event<P>>
    decreases calls.len(),
{
    if calls.len() == 0 {
        seq![]
    } else {
        match calls[0] {
            QueueCall::Push(p) => seq![Event::Other(p)] + back_events(calls.drop_first()),
            QueueCall::PushFront(_) => back_events(calls.drop_first()),
        }
    }
}

/// Whatever mix of `push` and `push_front` calls a batch receives, it comes out as the
/// front events in call order, then its `Update` event, then the other events in call
/// order.
pub proof fn lemma_batch_order<P>(
    front: Seq<Event<P>>,
    update: Event<P>,
    back: Seq<Event<P>>,
    calls: Seq<QueueCall<P>>,
)
    ensures
        after_calls(front + seq![update] + back, front.len() as int, calls) == (
            front + front_events(calls) + seq![update] + back + back_events(calls),
            (front.len() + front_events(calls).len()) as int,
        ),
    decreases calls.len(),
{
    if calls.len() > 0 {
        let rest = calls.drop_first();
        match calls[0] {
            QueueCall::Push(p) => {
                let b2 = back.push(Event::Other(p));
                assert((front + seq![update] + back).push(Event::Other(p)) =~= front + seq![update]
                    + b2);
                lemma_batch_order(front, update, b2, rest);
                assert(b2 + back_events(rest) =~= back + back_events(calls));
                assert(front + front_events(rest) + seq![update] + b2 + back_events(rest) =~= front
                    + front_events(calls) + seq![update] + back + back_events(calls));
            },
            QueueCall::PushFront(p) => {
                let f2 = front.push(Event::Other(p));
                assert((front + seq![update] + back).insert(front.len() as int, Event::Other(p))
                    =~= f2 + seq![update] + back);
                lemma_batch_order(f2, update, back, rest);
                assert(f2 + front_events(rest) =~= front + front_events(calls));
            },
        }
    } else {
        assert(front + seq![] + seq![update] + back + seq![] =~= front + seq![update] + back);
    }
}

} // verus!
