use vstd::prelude::*;

verus! {

/// A vector with a capacity fixed when it is made.
pub struct FixedList<T> {
    data: Vec<T>,
    cap: usize,
}

/// A front-to-back walk over the values of a `FixedList`.
pub struct Iter<'a, T> {
    data: &'a Vec<T>,
    pos: usize,
    end: usize,
}

/// A front-to-back walk over the values of a `FixedList` that hands out
/// each value for change.
pub struct IterMut<'a, T> {
    rest: &'a mut [T],
}

impl<T> View for FixedList<T> {
    type V = Seq<T>;

    /// The values held, front first.
    closed spec fn view(&self) -> Seq<T> {
        self.data@
    }
}

impl<T> FixedList<T> {
    /// The most values the list can hold.
    pub closed spec fn capacity(&self) -> nat {
        self.cap as nat
    }

    /// Internal invariant: never more values than the capacity.
    pub closed spec fn wf(&self) -> bool {
        self.data@.len() <= self.cap
    }

    /// Makes an empty list whose capacity is the length of `data`; the values
    /// in `data` are not part of the contents.
    pub fn new(data: Vec<T>) -> (r: FixedList<T>)
        ensures
            r.wf(),
            r@ == Seq::<T>::empty(),
            r.capacity() == data@.len(),
    {
        FixedList { data: Vec::new(), cap: data.len() }
    }

    /// A walk over the values, front first.
    pub fn iter(&self) -> (r: Iter<'_, T>)
        requires
            self.wf(),
        ensures
            r@ == self@,
    {
        Iter { data: &self.data, pos: 0, end: self.data.len() }
    }

    /// A walk over the values, front first, that hands each out for change;
    /// the list ends up holding the values as they were left.
    pub fn iter_mut(&mut self) -> (r: IterMut<'_, T>)
        requires
            old(self).wf(),
        ensures
            r@ == old(self)@,
            final(self)@ == final(r.rest())@,
            final(self).capacity() == old(self).capacity(),
    {
        IterMut { rest: self.data.as_mut_slice() }
    }

    /// Returns `true` exactly when the list holds at least one value (the
    /// answer is the opposite of what the name suggests).
    pub fn is_empty(&self) -> (r: bool)
        requires
            self.wf(),
        ensures
            r == (self@.len() != 0),
    {
        self.data.len() != 0
    }

    /// Number of values held.
    pub fn len(&self) -> (r: usize)
        requires
            self.wf(),
        ensures
            r == self@.len(),
    {
        self.data.len()
    }

    /// Drops every value.
    pub fn clear(&mut self)
        requires
            old(self).wf(),
        ensures
            final(self).wf(),
            final(self)@ == Seq::<T>::empty(),
            final(self).capacity() == old(self).capacity(),
    {
        self.data.clear();
    }

    /// The value at `i`, for changing in place.
    pub fn get(&mut self, i: usize) -> (r: Option<&mut T>)
        requires
            old(self).wf(),
        ensures
            i >= old(self)@.len() ==> r is None && final(self)@ == old(self)@,
            i < old(self)@.len() ==> r is Some && *r->0 == old(self)@[i as int]
                && final(self)@ == old(self)@.update(i as int, *final(r->0)),
            final(self).wf(),
            final(self).capacity() == old(self).capacity(),
    {
        if i >= self.data.len() {
            None
        } else {
            Some(&mut self.data[i])
        }
    }

    /// Exchanges the values at `i` and `j`.
    pub fn swap(&mut self, i: usize, j: usize)
        requires
            old(self).wf(),
            i < old(self)@.len(),
            j < old(self)@.len(),
        ensures
            final(self).wf(),
            final(self).capacity() == old(self).capacity(),
            final(self)@ == old(self)@.update(i as int, old(self)@[j as int]).update(j as int, old(self)@[i as int]),
    {
        if i != j {
            let (lo, hi) = if i < j { (i, j) } else { (j, i) };
            let b = self.data.remove(hi);
            let a = self.data.remove(lo);
            self.data.insert(lo, b);
            self.data.insert(hi, a);
            proof {
                assert(self.data@ =~= old(self)@.update(i as int, old(self)@[j as int]).update(j as int, old(self)@[i as int]));
            }
        }
    }

    /// The first value, if any.
    pub fn front(&self) -> (r: Option<&T>)
        requires
            self.wf(),
        ensures
            self@.len() == 0 ==> r is None,
            self@.len() > 0 ==> r == Some(&self@[0]),
    {
        if self.data.len() == 0 {
            None
        } else {
            Some(&self.data[0])
        }
    }

    /// The first value, if any, for changing in place.
    pub fn front_mut(&mut self) -> (r: Option<&mut T>)
        requires
            old(self).wf(),
        ensures
            old(self)@.len() == 0 ==> r is None && final(self)@ == old(self)@,
            old(self)@.len() > 0 ==> r is Some && *r->0 == old(self)@[0]
                && final(self)@ == old(self)@.update(0, *final(r->0)),
            final(self).wf(),
            final(self).capacity() == old(self).capacity(),
    {
        if self.data.len() == 0 {
            None
        } else {
            Some(&mut self.data[0])
        }
    }

    /// The last value, if any.
    pub fn back(&self) -> (r: Option<&T>)
        requires
            self.wf(),
        ensures
            self@.len() == 0 ==> r is None,
            self@.len() > 0 ==> r == Some(&self@.last()),
    {
        if self.data.len() == 0 {
            None
        } else {
            Some(&self.data[self.data.len() - 1])
        }
    }

    /// The last value, if any, for changing in place.
    pub fn back_mut(&mut self) -> (r: Option<&mut T>)
        requires
            old(self).wf(),
        ensures
            old(self)@.len() == 0 ==> r is None && final(self)@ == old(self)@,
            old(self)@.len() > 0 ==> r is Some && *r->0 == old(self)@.last()
                && final(self)@ == old(self)@.update(old(self)@.len() - 1, *final(r->0)),
            final(self).wf(),
            final(self).capacity() == old(self).capacity(),
    {
        if self.data.len() == 0 {
            None
        } else {
            let last = self.data.len() - 1;
            Some(&mut self.data[last])
        }
    }

    /// Appends `value`; the list must have room for it.
    pub fn push_back(&mut self, value: T)
        requires
            old(self).wf(),
            old(self)@.len() < old(self).capacity(),
        ensures
            final(self).wf(),
            final(self).capacity() == old(self).capacity(),
            final(self)@ == old(self)@.push(value),
    {
        self.data.push(value);
    }

    /// Removes and returns the last value.
    pub fn pop_back(&mut self) -> (r: Option<T>)
        requires
            old(self).wf(),
        ensures
            final(self).wf(),
            final(self).capacity() == old(self).capacity(),
            old(self)@.len() == 0 ==> r is None && final(self)@ == old(self)@,
            old(self)@.len() > 0 ==> r == Some(old(self)@.last()) && final(self)@ == old(self)@.drop_last(),
    {
        self.data.pop()
    }

    /// Puts `value` at `index`, moving the values from `index` on one place back.
    pub fn insert(&mut self, index: usize, value: T)
        requires
            old(self).wf(),
            index <= old(self)@.len(),
            old(self)@.len() < old(self).capacity(),
        ensures
            final(self).wf(),
            final(self).capacity() == old(self).capacity(),
            final(self)@ == old(self)@.insert(index as int, value),
    {
        self.data.insert(index, value);
    }

    /// Removes and returns the value at `index`, moving the later values one
    /// place forward.
    pub fn remove(&mut self, index: usize) -> (r: T)
        requires
            old(self).wf(),
            index < old(self)@.len(),
        ensures
            final(self).wf(),
            final(self).capacity() == old(self).capacity(),
            r == old(self)@[index as int],
            final(self)@ == old(self)@.remove(index as int),
    {
        self.data.remove(index)
    }
}

/// Contents after `remove_for(index, count)` on `old`: the live length drops
/// by `count`, and `old.len() - count - (index + count - 1)` values are moved
/// down by `count` places starting at `index`; the slots after those keep
/// their former values.
pub open spec fn removed_for<T>(old: Seq<T>, index: int, count: int) -> Seq<T> {
    let new_len = old.len() - count;
    let moved = new_len - (index + count - 1);
    Seq::new(new_len as nat, |p: int| if index <= p < index + moved { old[p + count] } else { old[p] })
}

impl<T: Copy> FixedList<T> {
    /// Removes `count` values starting at `index`: the live length drops by
    /// `count` and
    /// `len - count - (index + count - 1)` values are moved down.  For
    /// `count == 1` this is exactly the removal of one value; for larger
    /// counts the last `count - 1` live slots keep their former values.
    pub fn remove_for(&mut self, index: usize, count: usize)
        requires
            old(self).wf(),
            count > 0 ==> index + count <= old(self)@.len(),
            count > 0 ==> index + count - 1 <= old(self)@.len() - count,
        ensures
            final(self).wf(),
            final(self).capacity() == old(self).capacity(),
            count == 0 ==> final(self)@ == old(self)@,
            count > 0 ==> final(self)@ == removed_for(old(self)@, index as int, count as int),
    {
        if count > 0 {
            let new_len = self.data.len() - count;
            let moved = new_len - (index + count - 1);
            let mut k: usize = 0;
            while k < moved
                invariant
                    0 <= k <= moved,
                    moved == new_len - (index + count - 1),
                    new_len == old(self)@.len() - count,
                    index + count <= old(self)@.len(),
                    count > 0,
                    self.cap == old(self).cap,
                    self.data@.len() == old(self)@.len(),
                    forall|p: int| 0 <= p < self.data@.len() ==> #[trigger] self.data@[p] ==
                        if index <= p < index + k { old(self)@[p + count] } else { old(self)@[p] },
                decreases moved - k,
            {
                let v = self.data[index + count + k];
                self.data.set(index + k, v);
                k = k + 1;
            }
            self.data.truncate(new_len);
            proof {
                assert(self.data@ =~= removed_for(old(self)@, index as int, count as int));
            }
        }
    }
}

impl<'a, T> View for Iter<'a, T> {
    type V = Seq<T>;

    /// The values the walk has still to hand out, front first.
    closed spec fn view(&self) -> Seq<T> {
        self.data@.subrange(self.pos as int, self.end as int)
    }
}

impl<'a, T> Iter<'a, T> {
    /// Internal invariant: the walk stays inside the values.
    pub closed spec fn wf(&self) -> bool {
        self.pos <= self.end <= self.data@.len()
    }

    /// Hands out the next value, front first.
    pub fn next(&mut self) -> (r: Option<&'a T>)
        requires
            old(self).wf(),
        ensures
            final(self).wf(),
            old(self)@.len() == 0 ==> r is None && final(self)@ == old(self)@,
            old(self)@.len() > 0 ==> r == Some(&old(self)@[0]) && final(self)@ == old(self)@.drop_first(),
    {
        if self.pos == self.end {
            None
        } else {
            let v = &self.data[self.pos];
            self.pos = self.pos + 1;
            proof {
                assert(self@ =~= old(self)@.drop_first());
            }
            Some(v)
        }
    }

    /// Number of values still to be handed out.
    pub fn len(&self) -> (r: usize)
        requires
            self.wf(),
        ensures
            r == self@.len(),
    {
        self.end - self.pos
    }
}

impl<'a, T> View for IterMut<'a, T> {
    type V = Seq<T>;

    /// The values the walk has still to hand out, front first.
    closed spec fn view(&self) -> Seq<T> {
        self.rest@
    }
}

impl<'a, T> IterMut<'a, T> {
    /// The slice of values still to be handed out.
    pub closed spec fn rest(&self) -> &'a mut [T] {
        self.rest
    }

    /// Hands out the next value for change, front first.
    pub fn next(&mut self) -> (r: Option<&'a mut T>)
        ensures
            old(self)@.len() == 0 ==> r is None && final(self)@ == old(self)@,
            old(self)@.len() > 0 ==> r is Some && *r->0 == old(self)@[0] && final(self)@ == old(self)@.drop_first(),
            old(self)@.len() > 0 ==> final(old(self).rest())@ == seq![*final(r->0)] + final(final(self).rest())@,
            old(self)@.len() == 0 ==> final(old(self).rest())@ == final(final(self).rest())@,
    {
        let mut rest: &'a mut [T] = &mut [];
        core::mem::swap(&mut rest, &mut self.rest);
        if rest.len() == 0 {
            self.rest = rest;
            None
        } else {
            let (first, tail) = rest.split_at_mut(1);
            self.rest = tail;
            Some(&mut first[0])
        }
    }
}

/// `remove` at an index gives back the value `insert` put there and the
/// list it went into; `pop_back` does the same for `push_back`.
pub proof fn lemma_insert_remove<T>(s: Seq<T>, i: int, v: T)
    requires
        0 <= i <= s.len(),
    ensures
        s.insert(i, v)[i] == v,
        s.insert(i, v).remove(i) == s,
        s.push(v).last() == v,
        s.push(v).drop_last() == s,
{
    assert(s.insert(i, v).remove(i) =~= s);
    assert(s.push(v).drop_last() =~= s);
}

} // verus!
