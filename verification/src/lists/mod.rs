use vstd::prelude::*;

pub mod ring_buffer;
pub mod fixed_queue;
pub mod fixed_list;
pub mod linked_list;
pub mod sorted_list;

pub use self::ring_buffer::RingBuffer;
pub use self::fixed_queue::FixedQueue;
pub use self::fixed_list::FixedList;
pub use self::linked_list::{LinkedList, Linker, LinkedNode};
pub use self::sorted_list::SortedList;

verus! {
} // verus!
