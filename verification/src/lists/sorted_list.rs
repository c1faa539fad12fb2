use vstd::prelude::*;
use crate::lists::linked_list::{LinkedList, Linker, Iter, first_of, last_of, next_of};

verus! {

/// Position at which a value with key `k` goes into `s`: in front of the
/// first entry whose key is greater than `k`, so that equal keys keep the
/// order in which they came.
pub open spec fn insert_pos(s: Seq<(usize, u64)>, k: u64) -> int
    decreases s.len(),
{
    if s.len() == 0 {
        0
    } else if k < s[0].1 {
        0
    } else {
        1 + insert_pos(s.drop_first(), k)
    }
}

/// Keys never decrease from front to back.
pub open spec fn is_sorted(s: Seq<(usize, u64)>) -> bool {
    forall|i: int, j: int| 0 <= i < j < s.len() ==> s[i].1 <= s[j].1
}

proof fn lemma_insert_pos(s: Seq<(usize, u64)>, k: u64, i: int)
    requires
        0 <= i <= s.len(),
        forall|j: int| 0 <= j < i ==> s[j].1 <= k,
        i < s.len() ==> k < s[i].1,
    ensures
        insert_pos(s, k) == i,
    decreases s.len(),
{
    if s.len() > 0 && i > 0 {
        lemma_insert_pos(s.drop_first(), k, i - 1);
    }
}

proof fn lemma_insert_pos_bounds(s: Seq<(usize, u64)>, k: u64)
    ensures
        0 <= insert_pos(s, k) <= s.len(),
        forall|j: int| 0 <= j < insert_pos(s, k) ==> s[j].1 <= k,
        insert_pos(s, k) < s.len() ==> k < s[insert_pos(s, k)].1,
    decreases s.len(),
{
    if s.len() > 0 && !(k < s[0].1) {
        lemma_insert_pos_bounds(s.drop_first(), k);
        assert forall|j: int| 0 <= j < insert_pos(s, k) implies s[j].1 <= k by {
            if j > 0 {
                assert(s[j] == s.drop_first()[j - 1]);
            }
        }
    }
}

/// A linked list of node handles kept in order of a key given with each node.
pub struct SortedList {
    inner_list: LinkedList,
    keys: Vec<u64>,
}

impl View for SortedList {
    type V = Seq<(usize, u64)>;

    /// The linked nodes with their keys, front first.
    closed spec fn view(&self) -> Seq<(usize, u64)> {
        Seq::new(self.inner_list@.len(), |i: int| (self.inner_list@[i], self.keys@[self.inner_list@[i] as int]))
    }
}

impl SortedList {
    /// Internal invariant: every linked node has a key, and keys never
    /// decrease from front to back.
    pub closed spec fn wf(&self) -> bool {
        &&& self.inner_list.wf()
        &&& forall|i: int| 0 <= i < self.inner_list@.len() ==> #[trigger] self.inner_list@[i] < self.keys@.len()
        &&& is_sorted(self@)
    }

    /// An empty list.
    pub fn new() -> (r: SortedList)
        ensures
            r.wf(),
            r@ == Seq::<(usize, u64)>::empty(),
    {
        let r = SortedList { inner_list: LinkedList::new(), keys: Vec::new() };
        proof { assert(r@ =~= Seq::<(usize, u64)>::empty()); }
        r
    }

    /// A walk over the handles of the linked nodes, front first.
    pub fn iter(&self) -> (r: Iter)
        requires
            self.wf(),
        ensures
            r.wf(),
            r@ == self@.map_values(|e: (usize, u64)| e.0),
    {
        let r = self.inner_list.iter();
        proof { assert(r@ =~= self@.map_values(|e: (usize, u64)| e.0)); }
        r
    }

    /// Number of linked nodes.
    pub fn len(&self) -> (r: usize)
        requires
            self.wf(),
        ensures
            r == self@.len(),
    {
        self.inner_list.len()
    }

    /// `true` when no node is linked.
    pub fn is_empty(&self) -> (r: bool)
        requires
            self.wf(),
        ensures
            r == (self@.len() == 0),
    {
        self.inner_list.is_empty()
    }

    /// Unlinks every node.
    pub fn clear(&mut self)
        requires
            old(self).wf(),
        ensures
            final(self).wf(),
            final(self)@ == Seq::<(usize, u64)>::empty(),
    {
        self.inner_list.clear();
        proof { assert(self@ =~= Seq::<(usize, u64)>::empty()); }
    }

    /// The handle of the first node (smallest key), if any.
    pub fn front(&self) -> (r: Option<Linker>)
        requires
            self.wf(),
        ensures
            self@.len() == 0 ==> r is None,
            self@.len() > 0 ==> r == Some(Linker { id: self@[0].0 }),
    {
        self.inner_list.front()
    }

    /// The handle of the last node (largest key), if any.
    pub fn back(&self) -> (r: Option<Linker>)
        requires
            self.wf(),
        ensures
            self@.len() == 0 ==> r is None,
            self@.len() > 0 ==> r == Some(Linker { id: self@.last().0 }),
    {
        self.inner_list.back()
    }

    /// Links `node` with key `key` in front of the first node whose key is
    /// greater, or at the back when there is none.  `node` must not be
    /// linked yet.
    pub fn push(&mut self, node: Linker, key: u64)
        requires
            old(self).wf(),
            !old(self)@.map_values(|e: (usize, u64)| e.0).contains(node.id),
        ensures
            final(self).wf(),
            final(self)@ == old(self)@.insert(insert_pos(old(self)@, key), (node.id, key)),
    {
        let ghost v0 = self@;
        let ghost o = self.inner_list@;
        proof {
            if o.contains(node.id) {
                let j = o.index_of(node.id);
                assert(v0.map_values(|e: (usize, u64)| e.0)[j] == node.id);
            }
            lemma_insert_pos_bounds(v0, key);
        }
        while self.keys.len() <= node.id
            invariant
                self.inner_list.wf(),
                self.inner_list@ == o,
                self.keys@.len() >= old(self).keys@.len(),
                forall|i: int| 0 <= i < old(self).keys@.len() ==> self.keys@[i] == old(self).keys@[i],
                forall|i: int| 0 <= i < o.len() ==> #[trigger] o[i] < old(self).keys@.len(),
            decreases node.id + 1 - self.keys@.len(),
        {
            self.keys.push(0);
        }
        self.keys.set(node.id, key);
        let ghost k1 = self.keys@;
        proof {
            assert forall|i: int| 0 <= i < o.len() implies #[trigger] k1[o[i] as int] == v0[i].1 by {
                assert(o[i] != node.id);
            }
        }
        let mut next = self.inner_list.front();
        let mut prev: Option<Linker> = None;
        let ghost mut i: int = 0;
        loop
            invariant
                self.inner_list.wf(),
                self.inner_list@ == o,
                self.keys@ == k1,
                v0 == old(self)@,
                !o.contains(node.id),
                node.id < k1.len(),
                k1[node.id as int] == key,
                v0.len() == o.len(),
                forall|p: int| 0 <= p < o.len() ==> #[trigger] o[p] < k1.len() && k1[o[p] as int] == v0[p].1 && v0[p].0 == o[p],
                is_sorted(v0),
                0 <= i <= o.len(),
                next == if i < o.len() { Some(Linker { id: o[i] }) } else { None::<Linker> },
                prev == if i > 0 { Some(Linker { id: o[i - 1] }) } else { None::<Linker> },
                forall|j: int| 0 <= j < i ==> v0[j].1 <= key,
            decreases o.len() - i,
        {
            match next {
                Some(cand) => {
                    proof {
                        assert(o[i] < k1.len());
                    }
                    if key < self.keys[cand.id] {
                        proof {
                            lemma_insert_pos(v0, key, i);
                            self.inner_list.lemma_distinct();
                            assert(o.contains(cand.id));
                            let j = o.index_of(cand.id);
                            assert(o[j] == o[i]);
                            assert(j == i);
                        }
                        match prev {
                            Some(p) => {
                                proof {
                                    assert(o.contains(p.id));
                                    let jp = o.index_of(p.id);
                                    assert(o[jp] == o[i - 1]);
                                    assert(jp == i - 1);
                                }
                                self.inner_list.insert(node, p);
                            },
                            None => {
                                self.inner_list.push_front(node);
                                proof { assert(seq![node.id] + o =~= o.insert(0, node.id)); }
                            },
                        }
                        proof { self.lemma_after_insert(v0, o, k1, node.id, key, i); }
                        return;
                    }
                    proof {
                        assert(o.contains(cand.id));
                        self.inner_list.lemma_distinct();
                        let j = o.index_of(cand.id);
                        assert(o[j] == o[i]);
                        assert(j == i);
                    }
                    next = self.inner_list.next_node(&cand);
                    prev = Some(cand);
                    proof { i = i + 1; }
                },
                None => {
                    proof { lemma_insert_pos(v0, key, i); }
                    self.inner_list.push_back(node);
                    proof {
                        assert(o.insert(o.len() as int, node.id) =~= o.push(node.id));
                        self.lemma_after_insert(v0, o, k1, node.id, key, i);
                    }
                    return;
                },
            }
        }
    }

    /// After `id` with key `key` went into the node order `o` at position
    /// `p`, the list is well formed and shows `v0` with `(id, key)` inserted.
    proof fn lemma_after_insert(&self, v0: Seq<(usize, u64)>, o: Seq<usize>, k1: Seq<u64>, id: usize, key: u64, p: int)
        requires
            self.inner_list.wf(),
            self.inner_list@ == o.insert(p, id),
            self.keys@ == k1,
            0 <= p <= o.len(),
            v0.len() == o.len(),
            id < k1.len(),
            k1[id as int] == key,
            forall|q: int| 0 <= q < o.len() ==> #[trigger] o[q] < k1.len() && k1[o[q] as int] == v0[q].1 && v0[q].0 == o[q],
            is_sorted(v0),
            forall|j: int| 0 <= j < p ==> v0[j].1 <= key,
            p < o.len() ==> key < v0[p].1,
        ensures
            self.wf(),
            self@ == v0.insert(p, (id, key)),
    {
        let n = o.insert(p, id);
        let expected = v0.insert(p, (id, key));
        assert forall|q: int| 0 <= q < n.len() implies #[trigger] n[q] < self.keys@.len() by {
            if q < p { assert(o[q] < k1.len()); } else if q > p { assert(o[q - 1] < k1.len()); }
        }
        assert forall|q: int| 0 <= q < n.len() implies #[trigger] self@[q] == expected[q] by {
            if q < p { assert(o[q] < k1.len()); } else if q > p { assert(o[q - 1] < k1.len()); }
        }
        assert(self@ =~= expected);
        assert forall|a: int, b: int| 0 <= a < b < expected.len() implies expected[a].1 <= expected[b].1 by {
            if b < p {
            } else if b == p {
            } else if a < p {
                assert(v0[a].1 <= v0[b - 1].1);
            } else if a == p {
                assert(key < v0[p].1);
                assert(v0[p].1 <= v0[b - 1].1);
            } else {
                assert(v0[a - 1].1 <= v0[b - 1].1);
            }
        }
    }

    /// After the node order became `o.remove(p)`, the list is well formed and
    /// shows `v0` without its entry at `p`.
    proof fn lemma_after_remove(&self, v0: Seq<(usize, u64)>, o: Seq<usize>, p: int)
        requires
            self.inner_list.wf(),
            self.inner_list@ == o.remove(p),
            0 <= p < o.len(),
            v0.len() == o.len(),
            forall|q: int| 0 <= q < o.len() ==> #[trigger] o[q] < self.keys@.len() && self.keys@[o[q] as int] == v0[q].1 && v0[q].0 == o[q],
            is_sorted(v0),
        ensures
            self.wf(),
            self@ == v0.remove(p),
    {
        let n = o.remove(p);
        assert forall|q: int| 0 <= q < n.len() implies #[trigger] n[q] < self.keys@.len() by {
            if q < p { assert(o[q] < self.keys@.len()); } else { assert(o[q + 1] < self.keys@.len()); }
        }
        assert forall|q: int| 0 <= q < n.len() implies #[trigger] self@[q] == v0.remove(p)[q] by {
            if q < p { assert(o[q] < self.keys@.len()); } else { assert(o[q + 1] < self.keys@.len()); }
        }
        assert(self@ =~= v0.remove(p));
        assert forall|a: int, b: int| 0 <= a < b < n.len() implies self@[a].1 <= self@[b].1 by {
            let oa = if a < p { a } else { a + 1 };
            let ob = if b < p { b } else { b + 1 };
            assert(v0[oa].1 <= v0[ob].1);
        }
    }

    /// The facts the view gives about the inner list.
    proof fn lemma_view_facts(&self)
        requires
            self.wf(),
        ensures
            self@.len() == self.inner_list@.len(),
            forall|q: int| 0 <= q < self.inner_list@.len() ==> #[trigger] self.inner_list@[q] < self.keys@.len()
                && self.keys@[self.inner_list@[q] as int] == self@[q].1 && self@[q].0 == self.inner_list@[q],
            self@.map_values(|e: (usize, u64)| e.0) == self.inner_list@,
    {
        assert(self@.map_values(|e: (usize, u64)| e.0) =~= self.inner_list@);
    }

    /// Unlinks and returns the first node (smallest key), if any.
    pub fn pop_front(&mut self) -> (r: Option<Linker>)
        requires
            old(self).wf(),
        ensures
            final(self).wf(),
            old(self)@.len() == 0 ==> r is None && final(self)@ == old(self)@,
            old(self)@.len() > 0 ==> r == Some(Linker { id: old(self)@[0].0 }) && final(self)@ == old(self)@.drop_first(),
    {
        let ghost v0 = self@;
        let ghost o = self.inner_list@;
        proof { self.lemma_view_facts(); }
        let r = self.inner_list.pop_front();
        proof {
            if o.len() > 0 {
                assert(o.drop_first() =~= o.remove(0));
                self.lemma_after_remove(v0, o, 0);
                assert(v0.remove(0) =~= v0.drop_first());
            }
        }
        r
    }

    /// Unlinks and returns the last node (largest key), if any.
    pub fn pop_back(&mut self) -> (r: Option<Linker>)
        requires
            old(self).wf(),
        ensures
            final(self).wf(),
            old(self)@.len() == 0 ==> r is None && final(self)@ == old(self)@,
            old(self)@.len() > 0 ==> r == Some(Linker { id: old(self)@.last().0 }) && final(self)@ == old(self)@.drop_last(),
    {
        let ghost v0 = self@;
        let ghost o = self.inner_list@;
        proof { self.lemma_view_facts(); }
        let r = self.inner_list.pop_back();
        proof {
            if o.len() > 0 {
                assert(o.drop_last() =~= o.remove(o.len() - 1));
                self.lemma_after_remove(v0, o, o.len() - 1);
                assert(v0.remove(v0.len() - 1) =~= v0.drop_last());
            }
        }
        r
    }

    /// Unlinks `node`, which must be linked into this list.
    pub fn remove(&mut self, node: &Linker)
        requires
            old(self).wf(),
            old(self)@.map_values(|e: (usize, u64)| e.0).contains(node.id),
        ensures
            final(self).wf(),
            final(self)@ == old(self)@.remove(old(self)@.map_values(|e: (usize, u64)| e.0).index_of(node.id)),
    {
        let ghost v0 = self@;
        let ghost o = self.inner_list@;
        proof { self.lemma_view_facts(); }
        self.inner_list.remove(node);
        proof { self.lemma_after_remove(v0, o, o.index_of(node.id)); }
    }

    /// `true` when `node` is linked into this list.
    pub fn contains(&self, node: &Linker) -> (r: bool)
        requires
            self.wf(),
        ensures
            r == self@.map_values(|e: (usize, u64)| e.0).contains(node.id),
    {
        proof { self.lemma_view_facts(); }
        self.inner_list.contains(node)
    }
}

/// A list in key order has a smallest key at the front and a largest at
/// the back, so `pop_front` hands out a node with the smallest key and
/// `pop_back` one with the largest.
pub proof fn lemma_sorted_ends(s: Seq<(usize, u64)>)
    requires
        is_sorted(s),
        s.len() > 0,
    ensures
        forall|i: int| 0 <= i < s.len() ==> s[0].1 <= #[trigger] s[i].1 && s[i].1 <= s.last().1,
{
}

/// `push` keeps the list in key order, and a new node goes after every
/// node with the same key and before every node with a greater one.
pub proof fn lemma_push_in_order(s: Seq<(usize, u64)>, id: usize, key: u64)
    requires
        is_sorted(s),
    ensures
        is_sorted(s.insert(insert_pos(s, key), (id, key))),
        0 <= insert_pos(s, key) <= s.len(),
        forall|j: int| 0 <= j < insert_pos(s, key) ==> #[trigger] s[j].1 <= key,
        forall|j: int| insert_pos(s, key) <= j < s.len() ==> key < #[trigger] s[j].1,
{
    lemma_insert_pos_bounds(s, key);
    let p = insert_pos(s, key);
    let t = s.insert(p, (id, key));
    assert forall|j: int| p <= j < s.len() implies key < #[trigger] s[j].1 by {
        assert(s[p].1 <= s[j].1);
    }
    assert forall|a: int, b: int| 0 <= a < b < t.len() implies t[a].1 <= t[b].1 by {
        if b < p {
        } else if b == p {
        } else if a < p {
            assert(s[a].1 <= s[b - 1].1);
        } else if a == p {
            assert(key < s[b - 1].1);
        } else {
            assert(s[a - 1].1 <= s[b - 1].1);
        }
    }
}

impl SortedList {
    /// A well-formed list is in key order.
    pub proof fn lemma_in_order(&self)
        requires
            self.wf(),
        ensures
            is_sorted(self@),
    {
    }
}

} // verus!
