use vstd::prelude::*;
use crate::lists::ring_buffer::RingBuffer;
use crate::drivers::Device;

verus! {

/// Number of events the kernel's event queue can hold, plus one.
pub const QUEUE_SLOTS: usize = 128;

/// Something for the kernel's main loop to handle.
pub enum Event {
    /// The timer with this id expired.
    Timer(usize),
    /// An input device reported something.
    Device(Device),
}

/// The kernel's queue of pending events.
pub struct EventQueue(pub RingBuffer<Event>);

/// A fresh, empty event queue over `QUEUE_SLOTS` slots.
pub fn init() -> (r: EventQueue)
    ensures
        r.0.wf(),
        r.0@.len() == 0,
        r.0.capacity() == QUEUE_SLOTS,
{
    let mut slots: Vec<Event> = Vec::new();
    let mut i: usize = 0;
    while i < QUEUE_SLOTS
        invariant
            i <= QUEUE_SLOTS,
            slots@.len() == i,
        decreases QUEUE_SLOTS - i,
    {
        slots.push(Event::Timer(0));
        i = i + 1;
    }
    proof {
        assert(128usize & 127usize == 0usize) by (bit_vector);
    }
    EventQueue(RingBuffer::new(slots))
}

} // verus!
