//! The registry of named events, each with its ordered list of handlers.
//!
//! Registration takes `&mut self`: the host keeps the registry behind one
//! read/write lock, and a registration runs while its write guard is held.
use vstd::prelude::*;

verus! {

/// What an event is, abstractly: its name and its handlers in the order in
/// which they were registered.
pub type EventModel<H> = (Seq<char>, Seq<H>);

/// A named event and the handlers registered against it. A handler's
/// identifier is its position in the list.
pub struct Event<H> {
    name: String,
    handlers: Vec<H>,
}

impl<H> View for Event<H> {
    type V = EventModel<H>;

    closed spec fn view(&self) -> EventModel<H> {
        (self.name@, self.handlers@)
    }
}

impl<H> Event<H> {
    /// A new event with no handlers.
    pub fn new(name: String) -> (r: Event<H>)
        ensures
            r@ == (name@, Seq::<H>::empty()),
    {
        Event { name, handlers: Vec::new() }
    }

    pub fn get_name(&self) -> (r: &str)
        ensures
            r@ == self@.0,
    {
        self.name.as_str()
    }

    pub fn get_handlers(&self) -> (r: &Vec<H>)
        ensures
            r@ == self@.1,
    {
        &self.handlers
    }

    pub fn handler_count(&self) -> (r: usize)
        ensures
            r == self@.1.len(),
    {
        self.handlers.len()
    }
}

/// Registering a handler against an index that names no event.
#[derive(Debug, PartialEq, Eq, Structural)]
pub struct EventNotFound {
    pub index: usize,
}

/// The registry after an event is appended.
pub open spec fn with_event<H>(m: Seq<EventModel<H>>, e: EventModel<H>) -> Seq<EventModel<H>> {
    m.push(e)
}

/// The registry after `h` is appended to the handlers of event `i`.
pub open spec fn with_handler<H>(m: Seq<EventModel<H>>, i: int, h: H) -> Seq<EventModel<H>> {
    m.update(i, (m[i].0, m[i].1.push(h)))
}

/// The registry after the handlers `hs` are appended, in order, to event `i`.
pub open spec fn with_handlers<H>(m: Seq<EventModel<H>>, i: int, hs: Seq<H>) -> Seq<EventModel<H>>
    decreases hs.len(),
{
    if hs.len() == 0 {
        m
    } else {
        with_handler(with_handlers(m, i, hs.drop_last()), i, hs.last())
    }
}

/// Appending handlers to one event leaves the number of events and every
/// other event as they were, and extends that event's handlers by exactly the
/// appended ones, in order.
pub proof fn lemma_with_handlers<H>(m: Seq<EventModel<H>>, i: int, hs: Seq<H>)
    requires
        0 <= i < m.len(),
    ensures
        with_handlers(m, i, hs).len() == m.len(),
        with_handlers(m, i, hs)[i] == (m[i].0, m[i].1 + hs),
        forall|j: int| 0 <= j < m.len() && j != i ==> #[trigger] with_handlers(m, i, hs)[j] == m[j],
    decreases hs.len(),
{
    if hs.len() > 0 {
        lemma_with_handlers(m, i, hs.drop_last());
        assert(m[i].1 + hs == (m[i].1 + hs.drop_last()).push(hs.last()));
    } else {
        assert(m[i].1 + hs == m[i].1);
    }
}

/// Registering an event and then, on the index it was given, the handlers
/// `hs` one call at a time leaves that event holding exactly `hs`, in call
/// order, and the events registered before it untouched.
pub proof fn lemma_handlers_in_call_order<H>(m: Seq<EventModel<H>>, name: Seq<char>, hs: Seq<H>)
    ensures
        with_handlers(with_event(m, (name, Seq::<H>::empty())), m.len() as int, hs).len() == m.len() + 1,
        with_handlers(with_event(m, (name, Seq::<H>::empty())), m.len() as int, hs)[m.len() as int] == (name, hs),
        with_handlers(with_event(m, (name, Seq::<H>::empty())), m.len() as int, hs).subrange(0, m.len() as int) == m,
{
    let m1 = with_event(m, (name, Seq::<H>::empty()));
    lemma_with_handlers(m1, m.len() as int, hs);
    assert(Seq::<H>::empty() + hs == hs);
    let r = with_handlers(m1, m.len() as int, hs);
    assert(r.subrange(0, m.len() as int) =~= m);
}

/// Two registrations of events, one after the other, are given two distinct
/// indices, and the registry grows by exactly two events: none is lost.
pub proof fn lemma_two_registrations<H>(m: Seq<EventModel<H>>, e1: EventModel<H>, e2: EventModel<H>)
    ensures
        m.len() != with_event(m, e1).len(),
        with_event(with_event(m, e1), e2).len() == m.len() + 2,
        with_event(with_event(m, e1), e2)[m.len() as int] == e1,
        with_event(with_event(m, e1), e2)[m.len() as int + 1] == e2,
{
}

/// All events of the host, in the order in which they were registered. The
/// position of an event is its identity.
pub struct LakituEvents<H> {
    events: Vec<Event<H>>,
}

impl<H> View for LakituEvents<H> {
    type V = Seq<EventModel<H>>;

    closed spec fn view(&self) -> Seq<EventModel<H>> {
        self.events@.map_values(|e: Event<H>| e@)
    }
}

impl<H> LakituEvents<H> {
    pub fn new() -> (r: LakituEvents<H>)
        ensures
            r@ == Seq::<EventModel<H>>::empty(),
    {
        let r = LakituEvents { events: Vec::new() };
        assert(r@ =~= Seq::<EventModel<H>>::empty());
        r
    }

    pub fn get_events(&self) -> (r: &Vec<Event<H>>)
        ensures
            r@.len() == self@.len(),
            forall|i: int| 0 <= i < r@.len() ==> #[trigger] r@[i]@ == self@[i],
    {
        &self.events
    }

    pub fn len(&self) -> (r: usize)
        ensures
            r == self@.len(),
    {
        self.events.len()
    }

    /// Appends `event` and returns its position, which identifies it from
    /// then on.
    pub fn register_event(&mut self, event: Event<H>) -> (r: usize)
        ensures
            r == old(self)@.len(),
            final(self)@ == with_event(old(self)@, event@),
    {
        let index = self.events.len();
        self.events.push(event);
        assert(self@ =~= with_event(old(self)@, event@));
        index
    }

    /// Appends `handler` to the handlers of the event at `index` and returns
    /// the handler's identifier, its position in that list. An index that
    /// names no event is refused and nothing changes.
    pub fn register_event_handler(&mut self, index: usize, handler: H) -> (r: Result<usize, EventNotFound>)
        ensures
            index < old(self)@.len() ==> r == Ok::<usize, EventNotFound>(
                old(self)@[index as int].1.len() as usize,
            ) && final(self)@ == with_handler(old(self)@, index as int, handler),
            index >= old(self)@.len() ==> r == Err::<usize, EventNotFound>(EventNotFound { index })
                && final(self)@ == old(self)@,
    {
        if index >= self.events.len() {
            return Err(EventNotFound { index });
        }
        let mut event = self.events.remove(index);
        let id = event.handlers.len();
        event.handlers.push(handler);
        self.events.insert(index, event);
        assert(self@ =~= with_handler(old(self)@, index as int, handler));
        Ok(id)
    }
}

} // verus!
