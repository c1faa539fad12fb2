use vstd::prelude::*;
use crate::lists::ring_buffer::{ring_len, ring_slot};

verus! {

/// A fixed-capacity FIFO queue over the slots of a vector.
///
/// One slot always stays unused, so a queue of capacity `n` holds at most
/// `n - 1` values.  Writing into a full queue drops the oldest value.
pub struct FixedQueue<T> {
    data: Vec<T>,
    read: usize,
    write: usize,
}

/// The values between `read` and `write` in the slots `data`, oldest first.
pub open spec fn queue_view<T>(data: Seq<T>, read: int, write: int) -> Seq<T> {
    Seq::new(
        ring_len(read, write, data.len() as int) as nat,
        |i: int| data[ring_slot(read, i, data.len() as int)],
    )
}

/// Contents after appending `value` to `prev` in a queue of `n` slots.
pub open spec fn appended<T>(prev: Seq<T>, value: T, n: int) -> Seq<T> {
    if prev.len() + 1 < n { prev.push(value) } else { prev.push(value).drop_first() }
}

/// Write position after one step in a queue of `n` slots.
pub open spec fn next_slot(val: int, n: int) -> int {
    if val + 1 < n { val + 1 } else { 0 }
}

/// Writing `value` into the slot the write position leaves, after moving the
/// write position (and the read position, when they meet), appends `value`.
proof fn lemma_write_appends<T>(data: Seq<T>, r0: int, w0: int, value: T)
    requires
        data.len() > 0,
        0 <= r0 < data.len(),
        0 <= w0 < data.len(),
    ensures
        ({
            let n = data.len() as int;
            let w1 = next_slot(w0, n);
            let r1 = if w1 == r0 { next_slot(r0, n) } else { r0 };
            queue_view(data.update(w0, value), r1, w1) == appended(queue_view(data, r0, w0), value, n)
        }),
{
    let n = data.len() as int;
    let w1 = next_slot(w0, n);
    let r1 = if w1 == r0 { next_slot(r0, n) } else { r0 };
    let len0 = ring_len(r0, w0, n);
    let prev = queue_view(data, r0, w0);
    let d1 = data.update(w0, value);
    let expected = appended(prev, value, n);
    assert(ring_slot(r0, len0, n) == w0);
    if len0 + 1 < n {
        assert(ring_len(r1, w1, n) == len0 + 1);
        assert forall|i: int| 0 <= i < ring_len(r1, w1, n) implies
            #[trigger] d1[ring_slot(r1, i, n)] == expected[i] by {
            if i < len0 {
                assert(ring_slot(r0, i, n) != w0);
            }
        }
    } else {
        assert(ring_len(r1, w1, n) == len0);
        assert forall|i: int| 0 <= i < ring_len(r1, w1, n) implies
            #[trigger] d1[ring_slot(r1, i, n)] == expected[i] by {
            if i + 1 < len0 {
                assert(ring_slot(r1, i, n) == ring_slot(r0, i + 1, n));
                assert(ring_slot(r0, i + 1, n) != w0);
            } else {
                assert(ring_slot(r1, i, n) == w0);
            }
        }
    }
    assert(queue_view(d1, r1, w1) =~= expected);
}

impl<T: Copy> View for FixedQueue<T> {
    type V = Seq<T>;

    /// The values held, oldest first.
    closed spec fn view(&self) -> Seq<T> {
        queue_view(self.data@, self.read as int, self.write as int)
    }
}

impl<T: Copy> FixedQueue<T> {
    /// Number of slots; the queue holds at most `capacity() - 1` values.
    pub closed spec fn capacity(&self) -> nat {
        self.data@.len()
    }

    /// Internal invariant: both positions are slots of the vector.
    pub closed spec fn wf(&self) -> bool {
        &&& self.data@.len() == 0 ==> self.read == 0 && self.write == 0
        &&& self.data@.len() > 0 ==> self.read < self.data@.len() && self.write < self.data@.len()
    }

    /// Makes an empty queue that uses the slots of `data`.
    pub fn new(data: Vec<T>) -> (r: FixedQueue<T>)
        ensures
            r.wf(),
            r@ == Seq::<T>::empty(),
            r.capacity() == data@.len(),
    {
        FixedQueue { data, read: 0, write: 0 }
    }

    /// Drops every value.
    pub fn clear(&mut self)
        requires
            old(self).wf(),
        ensures
            final(self).wf(),
            final(self)@ == Seq::<T>::empty(),
            final(self).capacity() == old(self).capacity(),
    {
        self.read = 0;
        self.write = 0;
    }

    /// Number of values held.
    pub fn len(&self) -> (r: usize)
        requires
            self.wf(),
        ensures
            r == self@.len(),
    {
        if self.write >= self.read {
            self.write - self.read
        } else {
            self.write + (self.data.len() - self.read)
        }
    }

    /// `true` when nothing is held.
    pub fn is_empty(&self) -> (r: bool)
        requires
            self.wf(),
        ensures
            r == (self@.len() == 0),
    {
        self.read == self.write
    }

    /// The slot that follows `val`, wrapping at the capacity.
    fn step(&self, val: usize) -> (r: usize)
        requires
            val < self.data@.len(),
        ensures
            r == if val + 1 < self.data@.len() { val + 1 } else { 0 },
    {
        if val < self.data.len() - 1 {
            val + 1
        } else {
            0
        }
    }

    /// Appends `value`; when the queue is full the oldest value is dropped.
    pub fn push(&mut self, value: T)
        requires
            old(self).wf(),
            old(self).capacity() > 0,
        ensures
            final(self).wf(),
            final(self).capacity() == old(self).capacity(),
            final(self)@ == if old(self)@.len() + 1 < old(self).capacity() {
                old(self)@.push(value)
            } else {
                old(self)@.push(value).drop_first()
            },
    {
        *self.emplace_back() = value;
    }

    /// Claims the next slot for a new value, dropping the oldest value when the
    /// queue is full, and hands out that slot; whatever the caller leaves in
    /// it is the newest value.
    pub fn emplace_back(&mut self) -> (slot: &mut T)
        requires
            old(self).wf(),
            old(self).capacity() > 0,
        ensures
            final(self).wf(),
            final(self).capacity() == old(self).capacity(),
            final(self)@ == appended(old(self)@, *final(slot), old(self).capacity() as int),
    {
        let ghost d0 = self.data@;
        let ghost r0 = self.read as int;
        let ghost w0 = self.write as int;
        let ghost w1 = next_slot(w0, d0.len() as int);
        let ghost r1 = if w1 == r0 { next_slot(r0, d0.len() as int) } else { r0 };
        proof {
            assert forall|v: T| #[trigger] queue_view(d0.update(w0, v), r1, w1)
                == appended(queue_view(d0, r0, w0), v, d0.len() as int) by {
                lemma_write_appends(d0, r0, w0, v);
            }
        }
        let cur = self.advance_write();
        &mut self.data[cur]
    }

    /// Moves the write position one slot on, dropping the oldest value when the
    /// queue was full, and returns the slot that the new value goes into.
    fn advance_write(&mut self) -> (cur: usize)
        requires
            old(self).wf(),
            old(self).capacity() > 0,
        ensures
            final(self).wf(),
            final(self).data@ == old(self).data@,
            cur == old(self).write,
            final(self).write == if old(self).write + 1 < old(self).data@.len() { old(self).write + 1 } else { 0 },
            final(self).read == if final(self).write == old(self).read {
                if old(self).read + 1 < old(self).data@.len() { old(self).read + 1 } else { 0 }
            } else {
                old(self).read as int
            },
    {
        let cur = self.write;
        self.write = self.step(self.write);
        if self.read == self.write {
            self.read = self.step(self.read);
        }
        cur
    }

    /// Removes and returns the oldest value.
    pub fn pop(&mut self) -> (r: Option<T>)
        requires
            old(self).wf(),
        ensures
            final(self).wf(),
            final(self).capacity() == old(self).capacity(),
            old(self)@.len() == 0 ==> r is None && final(self)@ == old(self)@,
            old(self)@.len() > 0 ==> r == Some(old(self)@[0]) && final(self)@ == old(self)@.drop_first(),
    {
        if self.read != self.write {
            let ghost old_view = self@;
            let cur = self.read;
            self.read = self.step(self.read);
            let ret = self.data[cur];
            proof {
                let n = self.data@.len() as int;
                assert forall|i: int| 0 <= i < ring_len(self.read as int, self.write as int, n) implies
                    #[trigger] self.data@[ring_slot(self.read as int, i, n)] == old_view.drop_first()[i] by {
                    assert(ring_slot(self.read as int, i, n) == ring_slot(old(self).read as int, i + 1, n));
                }
                assert(self@ =~= old_view.drop_first());
            }
            Some(ret)
        } else {
            None
        }
    }

    /// The value `offset` places after the oldest one, if there is one.
    pub fn peek(&self, offset: usize) -> (r: Option<&T>)
        requires
            self.wf(),
        ensures
            offset < self@.len() ==> r == Some(&self@[offset as int]),
            offset >= self@.len() ==> r is None,
    {
        let len = self.len();
        if len > 0 && offset < len {
            if offset < self.data.len() - self.read {
                Some(&self.data[self.read + offset])
            } else {
                Some(&self.data[offset - (self.data.len() - self.read)])
            }
        } else {
            None
        }
    }
}

/// A queue of `n` slots never holds more than `n - 1` values. Appending
/// while there is room keeps every value and puts the new one at the back;
/// appending to a full queue drops exactly the oldest value.
pub proof fn lemma_queue_append<T>(s: Seq<T>, v: T, n: int)
    requires
        n >= 2,
        s.len() < n,
    ensures
        appended(s, v, n).len() < n,
        appended(s, v, n).last() == v,
        s.len() + 1 < n ==> appended(s, v, n) == s.push(v),
        s.len() + 1 >= n ==> appended(s, v, n) == s.drop_first().push(v),
{
    if s.len() + 1 >= n {
        assert(s.push(v).drop_first() =~= s.drop_first().push(v));
    }
}

} // verus!
