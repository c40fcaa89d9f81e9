//! Progress events.
//!
//! Progress is reported through an explicit event bus handed into the scanner
//! by reference, not through process-wide state: the caller owns the bus,
//! drains it, and forwards the events to whatever front end is listening.
//! Recording an event never fails and never aborts the operation in progress.

use vstd::prelude::*;

verus! {

/// The mathematical content of one progress event.
pub ghost struct EventView {
    pub name: Seq<char>,
    pub message: Seq<char>,
}

/// One progress event: a name the front end subscribes to and a
/// human-readable message.
pub struct ProgressEvent {
    pub event_name: String,
    pub message: String,
}

impl View for ProgressEvent {
    type V = EventView;

    open spec fn view(&self) -> EventView {
        EventView { name: self.event_name@, message: self.message@ }
    }
}

/// The views of a sequence of events.
pub open spec fn events_view(v: Seq<ProgressEvent>) -> Seq<EventView> {
    v.map_values(|e: ProgressEvent| e@)
}

/// An ordered log of progress events. Events are recorded in the order they
/// are emitted and are never reordered or dropped.
pub struct EventBus {
    pub events: Vec<ProgressEvent>,
}

impl View for EventBus {
    type V = Seq<EventView>;

    open spec fn view(&self) -> Seq<EventView> {
        events_view(self.events@)
    }
}

impl EventBus {
    /// A bus that has seen no events yet.
    pub fn new() -> (r: EventBus)
        ensures
            r@ == Seq::<EventView>::empty(),
    {
        let r = EventBus { events: Vec::new() };
        proof {
            assert(r@ =~= Seq::<EventView>::empty());
        }
        r
    }

    /// The number of events recorded so far.
    pub fn len(&self) -> (r: usize)
        ensures
            r == self@.len(),
    {
        self.events.len()
    }
}

/// Records one event on the bus: everything already recorded stays, in order,
/// and the new event comes last.
pub fn emit_global(bus: &mut EventBus, event_name: &str, msg: &str)
    ensures
        final(bus)@ == old(bus)@.push(EventView { name: event_name@, message: msg@ }),
{
    let e = ProgressEvent { event_name: event_name.to_owned(), message: msg.to_owned() };
    bus.events.push(e);
    proof {
        assert(final(bus)@ =~= old(bus)@.push(EventView { name: event_name@, message: msg@ }));
    }
}

} // verus!
