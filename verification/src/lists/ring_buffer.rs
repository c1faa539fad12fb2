use vstd::prelude::*;

verus! {

/// `n` is a non-zero power of two.
pub open spec fn is_pow2(n: usize) -> bool {
    n > 0 && n & ((n - 1) as usize) == 0
}

proof fn lemma_pow2_mask_small(n: usize, x: usize)
    requires
        is_pow2(n),
        x < n,
    ensures
        x & ((n - 1) as usize) == x,
{
    let m = (n - 1) as usize;
    assert(n & m == 0usize && n > 0 && m == n - 1 && x < n ==> x & m == x) by (bit_vector);
}

proof fn lemma_pow2_mask_wrap(n: usize, x: usize)
    requires
        is_pow2(n),
        n <= x,
        x - n < n,
    ensures
        x & ((n - 1) as usize) == x - n,
{
    let m = (n - 1) as usize;
    let y = (x - n) as usize;
    assert(n & m == 0usize && n > 0 && m == n - 1 && y < n && x == y + n ==> x & m == y) by (bit_vector);
}

} // verus!

verus! {

/// A fixed-capacity ring buffer whose capacity is a power of two.
///
/// One slot always stays unused, so a buffer of capacity `n` holds at most
/// `n - 1` values.  Pushing into a full buffer drops the oldest value.
pub struct RingBuffer<T> {
    data: Vec<Option<T>>,
    read: usize,
    write: usize,
}

/// Position of the `i`-th live slot counted from `read` in a buffer of `cap` slots.
pub open spec fn ring_slot(read: int, i: int, cap: int) -> int {
    if read + i < cap { read + i } else { read + i - cap }
}

/// Contents after pushing `v` onto contents `s` in a buffer of `cap`
/// slots: appended, with the oldest value dropped when there was no room.
pub open spec fn ring_pushed<T>(s: Seq<T>, v: T, cap: nat) -> Seq<T> {
    if s.len() + 1 < cap { s.push(v) } else { s.push(v).drop_first() }
}

/// Number of values between `read` and `write` in a buffer of `cap` slots.
pub open spec fn ring_len(read: int, write: int, cap: int) -> int {
    if write >= read { write - read } else { write + cap - read }
}

impl<T> View for RingBuffer<T> {
    type V = Seq<T>;

    /// The values held, oldest first.
    closed spec fn view(&self) -> Seq<T> {
        Seq::new(
            ring_len(self.read as int, self.write as int, self.data@.len() as int) as nat,
            |i: int| self.data@[ring_slot(self.read as int, i, self.data@.len() as int)]->0,
        )
    }
}

impl<T> RingBuffer<T> {
    /// Number of slots; the buffer holds at most `capacity() - 1` values.
    pub closed spec fn capacity(&self) -> nat {
        self.data@.len()
    }

    /// Internal invariant: indices in range and every live slot filled.
    pub closed spec fn wf(&self) -> bool {
        &&& is_pow2(self.data@.len() as usize)
        &&& self.data@.len() <= isize::MAX
        &&& self.read < self.data@.len()
        &&& self.write < self.data@.len()
        &&& forall|i: int|
            0 <= i < ring_len(self.read as int, self.write as int, self.data@.len() as int) ==> (#[trigger] self.data@[ring_slot(self.read as int, i, self.data@.len() as int)]) is Some
    }

    /// Makes an empty buffer that uses the slots of `data`; its length, a power
    /// of two, is the capacity.  The values in `data` are not part of the contents.
    pub fn new(data: Vec<T>) -> (r: RingBuffer<T>)
        requires
            is_pow2(data@.len() as usize),
            data@.len() <= isize::MAX,
        ensures
            r.wf(),
            r@ == Seq::<T>::empty(),
            r.capacity() == data@.len(),
    {
        let n = data.len();
        let mut slots: Vec<Option<T>> = Vec::new();
        let mut i: usize = 0;
        while i < n
            invariant
                i <= n,
                slots@.len() == i,
            decreases n - i,
        {
            slots.push(None);
            i = i + 1;
        }
        RingBuffer { data: slots, read: 0, write: 0 }
    }

    /// Drops every value.
    pub fn clear(&mut self)
        requires
            old(self).wf(),
        ensures
            final(self).wf(),
            final(self)@ == Seq::<T>::empty(),
            final(self).capacity() == old(self).capacity(),
    {
        self.read = 0;
        self.write = 0;
    }

    /// Number of values held.
    pub fn len(&self) -> (r: usize)
        requires
            self.wf(),
        ensures
            r == self@.len(),
    {
        if self.write >= self.read {
            self.write - self.read
        } else {
            self.write + (self.data.len() - self.read)
        }
    }

    /// `true` when nothing is held.
    pub fn is_empty(&self) -> (r: bool)
        requires
            self.wf(),
        ensures
            r == (self@.len() == 0),
    {
        self.read == self.write
    }

    /// The index that follows `val`, wrapping at the capacity.
    fn step(&self, val: usize) -> (r: usize)
        requires
            is_pow2(self.data@.len() as usize),
            val < self.data@.len(),
        ensures
            r == if val + 1 < self.data@.len() { val + 1 } else { 0 },
    {
        let n = self.data.len();
        proof {
            if val + 1 < n {
                lemma_pow2_mask_small(n, (val + 1) as usize);
            } else {
                lemma_pow2_mask_wrap(n, (val + 1) as usize);
            }
        }
        (val + 1) & (n - 1)
    }

    /// Appends `value`; when the buffer is full the oldest value is dropped.
    pub fn push(&mut self, value: T)
        requires
            old(self).wf(),
        ensures
            final(self).wf(),
            final(self).capacity() == old(self).capacity(),
            final(self)@ == ring_pushed(old(self)@, value, old(self).capacity()),
    {
        let ghost old_view = self@;
        let ghost r0 = self.read as int;
        let ghost w0 = self.write as int;
        let ghost n = self.data@.len() as int;
        let ghost len0 = ring_len(r0, w0, n);
        assert(ring_slot(r0, len0, n) == w0);
        let cur = self.write;
        self.write = self.step(self.write);
        if self.read == self.write {
            self.read = self.step(self.read);
        }
        self.data.set(cur, Some(value));
        proof {
            let expected = if old_view.len() + 1 < n { old_view.push(value) } else { old_view.push(value).drop_first() };
            let r1 = self.read as int;
            let w1 = self.write as int;
            if len0 + 1 < n {
                assert(r1 == r0);
                assert(ring_len(r1, w1, n) == len0 + 1);
                assert forall|i: int| 0 <= i < ring_len(r1, w1, n) implies
                    (#[trigger] self.data@[ring_slot(r1, i, n)]) is Some && self.data@[ring_slot(r1, i, n)]->0 == expected[i] by {
                    if i < len0 {
                        assert(ring_slot(r0, i, n) != w0);
                        assert(old(self).data@[ring_slot(r0, i, n)] is Some);
                    }
                }
            } else {
                assert(len0 == n - 1);
                assert(ring_len(r1, w1, n) == len0);
                assert forall|i: int| 0 <= i < ring_len(r1, w1, n) implies
                    (#[trigger] self.data@[ring_slot(r1, i, n)]) is Some && self.data@[ring_slot(r1, i, n)]->0 == expected[i] by {
                    if i + 1 < len0 {
                        assert(ring_slot(r1, i, n) == ring_slot(r0, i + 1, n));
                        assert(ring_slot(r0, i + 1, n) != w0);
                        assert(old(self).data@[ring_slot(r0, i + 1, n)] is Some);
                    } else {
                        assert(ring_slot(r1, i, n) == w0);
                    }
                }
            }
            assert(self@ =~= expected);
        }
    }

    /// Appends `value` unless the buffer is full.  On a full buffer the write
    /// position has already moved onto the read position when the fullness is
    /// noticed, so the buffer is left empty and `false` is returned.
    pub fn try_push(&mut self, value: T) -> (r: bool)
        requires
            old(self).wf(),
        ensures
            final(self).wf(),
            final(self).capacity() == old(self).capacity(),
            r == (old(self)@.len() + 1 < old(self).capacity()),
            r ==> final(self)@ == old(self)@.push(value),
            !r ==> final(self)@ == Seq::<T>::empty(),
    {
        let ghost old_view = self@;
        let cur = self.write;
        self.write = self.step(self.write);
        if self.read == self.write {
            false
        } else {
            self.data.set(cur, Some(value));
            proof {
                let n = self.data@.len() as int;
                assert forall|i: int| 0 <= i < ring_len(self.read as int, self.write as int, n) implies
                    (#[trigger] self.data@[ring_slot(self.read as int, i, n)]) is Some && self.data@[ring_slot(self.read as int, i, n)]->0 == old_view.push(value)[i] by {
                }
                assert(self@ =~= old_view.push(value));
            }
            true
        }
    }

    /// Removes and returns the oldest value.
    pub fn pop(&mut self) -> (r: Option<T>)
        requires
            old(self).wf(),
        ensures
            final(self).wf(),
            final(self).capacity() == old(self).capacity(),
            old(self)@.len() == 0 ==> r is None && final(self)@ == old(self)@,
            old(self)@.len() > 0 ==> r == Some(old(self)@[0]) && final(self)@ == old(self)@.drop_first(),
    {
        if self.read == self.write {
            None
        } else {
            let ghost old_view = self@;
            let cur = self.read;
            assert(self.data@[ring_slot(self.read as int, 0, self.data@.len() as int)] is Some);
            self.read = self.step(self.read);
            let mut taken: Option<T> = None;
            self.data.set_and_swap(cur, &mut taken);
            proof {
                let n = self.data@.len() as int;
                assert forall|i: int| 0 <= i < ring_len(self.read as int, self.write as int, n) implies
                    (#[trigger] self.data@[ring_slot(self.read as int, i, n)]) is Some && self.data@[ring_slot(self.read as int, i, n)]->0 == old_view.drop_first()[i] by {
                    assert(old(self).data@[ring_slot(old(self).read as int, i + 1, n)] is Some);
                }
                assert(self@ =~= old_view.drop_first());
            }
            taken
        }
    }

    /// The value `offset` places after the oldest one, if there is one.
    pub fn peek(&self, offset: usize) -> (r: Option<&T>)
        requires
            self.wf(),
        ensures
            offset < self@.len() ==> r == Some(&self@[offset as int]),
            offset >= self@.len() ==> r is None,
    {
        let len = self.len();
        if len > 0 && offset < len {
            let n = self.data.len();
            let index = self.read + offset;
            proof {
                if index < n {
                    lemma_pow2_mask_small(n, index);
                } else {
                    lemma_pow2_mask_wrap(n, index);
                }
                assert(self.data@[ring_slot(self.read as int, offset as int, n as int)] is Some);
            }
            self.data[index & (n - 1)].as_ref()
        } else {
            None
        }
    }
}

/// A ring buffer of `cap` slots never holds more than `cap - 1` values.
/// Pushing while there is room keeps every value and puts the new one at
/// the back; pushing into a full buffer drops exactly the oldest value.
pub proof fn lemma_ring_push<T>(s: Seq<T>, v: T, cap: nat)
    requires
        cap >= 2,
        s.len() < cap,
    ensures
        ring_pushed(s, v, cap).len() < cap,
        ring_pushed(s, v, cap).last() == v,
        s.len() + 1 < cap ==> ring_pushed(s, v, cap) == s.push(v),
        s.len() + 1 >= cap ==> ring_pushed(s, v, cap) == s.drop_first().push(v),
{
    if s.len() + 1 >= cap {
        assert(s.push(v).drop_first() =~= s.drop_first().push(v));
    }
}

/// First in, first out: values pushed into a buffer with room for them all
/// come out in the order they went in.
pub proof fn lemma_ring_fifo<T>(a: T, b: T, cap: nat)
    requires
        cap >= 3,
    ensures
        ring_pushed(ring_pushed(Seq::<T>::empty(), a, cap), b, cap) == seq![a, b],
        ring_pushed(ring_pushed(Seq::<T>::empty(), a, cap), b, cap)[0] == a,
        ring_pushed(ring_pushed(Seq::<T>::empty(), a, cap), b, cap).drop_first() == seq![b],
{
    assert(ring_pushed(Seq::<T>::empty(), a, cap) =~= seq![a]);
    assert(ring_pushed(seq![a], b, cap) =~= seq![a, b]);
    assert(seq![a, b].drop_first() =~= seq![b]);
}

} // verus!
