//! The event emitter: results on their way to the front end, in order.

use vstd::prelude::*;
use crate::decode::DecodeError;
use crate::peaks::WaveformSummary;

verus! {

/// A message to the front end.
#[derive(Debug)]
pub enum Event {
    /// A file was dropped on the window at a position.
    FileDropped { path: String, x: i32, y: i32 },
    /// The summary of a loaded sound is ready.
    WaveformReady(WaveformSummary),
}

/// The events that wait to be delivered, oldest first.
pub struct EventQueue {
    pub pending: Vec<Event>,
}

impl View for EventQueue {
    type V = Seq<Event>;

    open spec fn view(&self) -> Seq<Event> {
        self.pending@
    }
}

impl EventQueue {
    /// A queue with nothing in it.
    pub fn new() -> (queue: EventQueue)
        ensures
            queue@ == Seq::<Event>::empty(),
    {
        EventQueue { pending: Vec::new() }
    }

    /// Puts an event behind those that wait.
    pub fn emit(&mut self, event: Event)
        ensures
            final(self)@ == old(self)@.push(event),
    {
        self.pending.push(event);
    }

    /// Ends a load: a summary is queued as `WaveformReady`, a failure leaves
    /// no trace.
    pub fn complete_load(&mut self, outcome: Result<WaveformSummary, DecodeError>)
        ensures
            match outcome {
                Ok(summary) => final(self)@ == old(self)@.push(Event::WaveformReady(summary)),
                Err(_) => final(self)@ == old(self)@,
            },
    {
        match outcome {
            Ok(summary) => self.emit(Event::WaveformReady(summary)),
            Err(_) => {},
        }
    }

    /// Hands out all waiting events in the order in which they were emitted,
    /// and leaves the queue empty.
    pub fn drain(&mut self) -> (events: Vec<Event>)
        ensures
            events@ == old(self)@,
            final(self)@ == Seq::<Event>::empty(),
    {
        let mut events: Vec<Event> = Vec::new();
        std::mem::swap(&mut self.pending, &mut events);
        events
    }
}

} // verus!
