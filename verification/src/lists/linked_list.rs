use vstd::prelude::*;

verus! {

/// The handle by which a node is linked into a `LinkedList`.
///
/// Handles are compared by identity: two handles name the same node exactly
/// when their ids are equal.
#[derive(Clone, Copy, PartialEq, Eq, Structural, Debug)]
pub struct Linker {
    pub id: usize,
}

impl Linker {
    /// The handle of node `id`.
    pub fn new(id: usize) -> (r: Linker)
        ensures
            r.id == id,
    {
        Linker { id }
    }

    /// `true` when both handles name the same node.
    pub fn is_same(&self, other: &Linker) -> (r: bool)
        ensures
            r == (self.id == other.id),
    {
        self.id == other.id
    }
}

/// `true` when both are handles and name the same node.
pub fn linker_is_same_option(this: Option<&Linker>, other: Option<&Linker>) -> (r: bool)
    ensures
        r == (this is Some && other is Some && this->0.id == other->0.id),
{
    match (this, other) {
        (Some(this), Some(other)) => this.is_same(other),
        _ => false,
    }
}

/// The link fields of one node: its neighbours in the list it belongs to.
#[derive(Clone, Copy)]
pub struct LinkedNode {
    pub prev: Option<Linker>,
    pub next: Option<Linker>,
}

impl LinkedNode {
    /// A node linked to nothing.
    pub fn new() -> (r: LinkedNode)
        ensures
            r.prev() is None,
            r.next() is None,
    {
        LinkedNode { prev: None, next: None }
    }

    /// The node before this one.
    pub open spec fn prev(&self) -> Option<Linker> {
        self.prev
    }

    /// The node after this one.
    pub open spec fn next(&self) -> Option<Linker> {
        self.next
    }

    /// The node before this one.
    pub fn get_prev(&self) -> (r: Option<Linker>)
        ensures
            r == self.prev(),
    {
        self.prev
    }

    /// Links `node` as the node before this one.
    pub fn set_prev(&mut self, node: Option<Linker>)
        ensures
            final(self).prev() == node,
            final(self).next() == old(self).next(),
    {
        self.prev = node;
    }

    /// The node after this one.
    pub fn get_next(&self) -> (r: Option<Linker>)
        ensures
            r == self.next(),
    {
        self.next
    }

    /// Links `node` as the node after this one.
    pub fn set_next(&mut self, node: Option<Linker>)
        ensures
            final(self).next() == node,
            final(self).prev() == old(self).prev(),
    {
        self.next = node;
    }
}

/// The neighbour before position `k` of `order`.
pub open spec fn prev_of(order: Seq<usize>, k: int) -> Option<Linker> {
    if k == 0 { None } else { Some(Linker { id: order[k - 1] }) }
}

/// The neighbour after position `k` of `order`.
pub open spec fn next_of(order: Seq<usize>, k: int) -> Option<Linker> {
    if k + 1 == order.len() { None } else { Some(Linker { id: order[k + 1] }) }
}

/// The first node of `order`, if any.
pub open spec fn first_of(order: Seq<usize>) -> Option<Linker> {
    if order.len() == 0 { None } else { Some(Linker { id: order[0] }) }
}

/// The last node of `order`, if any.
pub open spec fn last_of(order: Seq<usize>) -> Option<Linker> {
    if order.len() == 0 { None } else { Some(Linker { id: order.last() }) }
}

/// The node at position `k` of `order` has the right neighbours in `nodes`.
pub open spec fn linked_at(nodes: Seq<LinkedNode>, order: Seq<usize>, k: int) -> bool {
    &&& order[k] < nodes.len()
    &&& nodes[order[k] as int].prev == prev_of(order, k)
    &&& nodes[order[k] as int].next == next_of(order, k)
}

/// A sequence of distinct ids below `n` has at most `n` entries.
proof fn lemma_distinct_bounded(s: Seq<usize>, n: nat)
    requires
        s.no_duplicates(),
        forall|i: int| 0 <= i < s.len() ==> s[i] < n,
    ensures
        s.len() <= n,
    decreases n,
{
    if n == 0 {
        if s.len() > 0 {
            assert(s[0] < 0);
        }
    } else if s.contains((n - 1) as usize) {
        let j = s.index_of((n - 1) as usize);
        let t = s.remove(j);
        assert forall|a: int, b: int| 0 <= a < t.len() && 0 <= b < t.len() && a != b implies t[a] != t[b] by {
            let oa = if a < j { a } else { a + 1 };
            let ob = if b < j { b } else { b + 1 };
            assert(t[a] == s[oa] && t[b] == s[ob]);
        }
        assert forall|i: int| 0 <= i < t.len() implies t[i] < n - 1 by {
            let oi = if i < j { i } else { i + 1 };
            assert(t[i] == s[oi]);
        }
        lemma_distinct_bounded(t, (n - 1) as nat);
    } else {
        assert forall|i: int| 0 <= i < s.len() implies s[i] < n - 1 by {
            if s[i] == n - 1 {
                assert(s.contains(s[i]));
            }
        }
        lemma_distinct_bounded(s, (n - 1) as nat);
    }
}

/// A doubly linked list of node handles that allocates no nodes itself.
///
/// The list keeps the link fields of every node it has been given; a node is
/// linked in by handing over its `Linker`.
pub struct LinkedList {
    len: usize,
    head: Option<Linker>,
    tail: Option<Linker>,
    nodes: Vec<LinkedNode>,
    order: Ghost<Seq<usize>>,
}

impl View for LinkedList {
    type V = Seq<usize>;

    /// The ids of the linked nodes, front first.
    closed spec fn view(&self) -> Seq<usize> {
        self.order@
    }
}

impl LinkedList {
    /// Internal invariant: head, tail, length and every link agree with the
    /// order of the nodes, and no node occurs twice.
    pub closed spec fn wf(&self) -> bool {
        &&& self.order@.len() == self.len
        &&& self.order@.no_duplicates()
        &&& self.head == first_of(self.order@)
        &&& self.tail == last_of(self.order@)
        &&& forall|k: int| 0 <= k < self.order@.len() ==> #[trigger] linked_at(self.nodes@, self.order@, k)
    }

    /// An empty list.
    pub fn new() -> (r: LinkedList)
        ensures
            r.wf(),
            r@ == Seq::<usize>::empty(),
    {
        LinkedList { len: 0, head: None, tail: None, nodes: Vec::new(), order: Ghost(Seq::empty()) }
    }

    /// Number of linked nodes.
    pub fn len(&self) -> (r: usize)
        requires
            self.wf(),
        ensures
            r == self@.len(),
    {
        self.len
    }

    /// `true` when no node is linked.
    pub fn is_empty(&self) -> (r: bool)
        requires
            self.wf(),
        ensures
            r == (self@.len() == 0),
    {
        self.len == 0
    }

    /// Unlinks every node.
    pub fn clear(&mut self)
        requires
            old(self).wf(),
        ensures
            final(self).wf(),
            final(self)@ == Seq::<usize>::empty(),
    {
        *self = Self::new();
    }

    /// The handle of the first node, if any.
    pub fn front(&self) -> (r: Option<Linker>)
        requires
            self.wf(),
        ensures
            r == first_of(self@),
    {
        self.head
    }

    /// The handle of the last node, if any.
    pub fn back(&self) -> (r: Option<Linker>)
        requires
            self.wf(),
        ensures
            r == last_of(self@),
    {
        self.tail
    }

    /// Makes room in the link table for node `id`; nothing else changes.
    fn ensure_node(&mut self, id: usize)
        requires
            old(self).wf(),
        ensures
            final(self).wf(),
            final(self)@ == old(self)@,
            final(self).nodes@.len() > id,
            final(self).nodes@.len() >= old(self).nodes@.len(),
            forall|i: int| 0 <= i < old(self).nodes@.len() ==> final(self).nodes@[i] == old(self).nodes@[i],
            final(self).head == old(self).head,
            final(self).tail == old(self).tail,
            final(self).len == old(self).len,
    {
        while self.nodes.len() <= id
            invariant
                self.wf(),
                self.order@ == old(self).order@,
                self.head == old(self).head,
                self.tail == old(self).tail,
                self.len == old(self).len,
                self.nodes@.len() >= old(self).nodes@.len(),
                forall|i: int| 0 <= i < old(self).nodes@.len() ==> self.nodes@[i] == old(self).nodes@[i],
            decreases id + 1 - self.nodes@.len(),
        {
            let ghost before = self.nodes@;
            self.nodes.push(LinkedNode::new());
            proof {
                assert forall|k: int| 0 <= k < self.order@.len() implies #[trigger] linked_at(self.nodes@, self.order@, k) by {
                    assert(linked_at(before, self.order@, k));
                }
            }
        }
    }

    /// Sets the `prev` link of node `id`.
    fn link_prev(&mut self, id: usize, prev: Option<Linker>)
        requires
            id < old(self).nodes@.len(),
        ensures
            final(self).nodes@ == old(self).nodes@.update(id as int, LinkedNode { prev: prev, next: old(self).nodes@[id as int].next }),
            final(self).head == old(self).head,
            final(self).tail == old(self).tail,
            final(self).len == old(self).len,
            final(self).order == old(self).order,
    {
        let mut n = self.nodes[id];
        n.set_prev(prev);
        self.nodes.set(id, n);
    }

    /// Sets the `next` link of node `id`.
    fn link_next(&mut self, id: usize, next: Option<Linker>)
        requires
            id < old(self).nodes@.len(),
        ensures
            final(self).nodes@ == old(self).nodes@.update(id as int, LinkedNode { prev: old(self).nodes@[id as int].prev, next: next }),
            final(self).head == old(self).head,
            final(self).tail == old(self).tail,
            final(self).len == old(self).len,
            final(self).order == old(self).order,
    {
        let mut n = self.nodes[id];
        n.set_next(next);
        self.nodes.set(id, n);
    }

    /// Links `node` in front of the first node.  `node` must not be linked yet.
    pub fn push_front(&mut self, node: Linker)
        requires
            old(self).wf(),
            !old(self)@.contains(node.id),
        ensures
            final(self).wf(),
            final(self)@ == seq![node.id] + old(self)@,
    {
        self.ensure_node(node.id);
        let ghost o = self.order@;
        let ghost new_order = seq![node.id] + o;
        proof {
            assert forall|a: int, b: int| 0 <= a < new_order.len() && 0 <= b < new_order.len() && a != b implies new_order[a] != new_order[b] by {
                if a == 0 && b > 0 { assert(o.contains(new_order[b])); }
                if b == 0 && a > 0 { assert(o.contains(new_order[a])); }
            }
            assert forall|i: int| 0 <= i < new_order.len() implies new_order[i] < self.nodes@.len() by {
                if i > 0 { assert(linked_at(self.nodes@, o, i - 1)); }
            }
            lemma_distinct_bounded(new_order, self.nodes@.len());
            vstd::std_specs::vec::axiom_spec_len(&self.nodes);
        }
        let ghost n0 = self.nodes@;
        let head = self.head;
        self.nodes.set(node.id, LinkedNode { prev: None, next: head });
        match head {
            Some(h) => {
                proof { assert(linked_at(n0, o, 0)); }
                self.link_prev(h.id, Some(node));
                self.len = self.len + 1;
            },
            None => {
                self.tail = Some(node);
                self.len = 1;
            },
        }
        self.head = Some(node);
        self.order = Ghost(new_order);
        proof {
            assert forall|k: int| 0 <= k < new_order.len() implies #[trigger] linked_at(self.nodes@, new_order, k) by {
                if k >= 1 {
                    assert(linked_at(n0, o, k - 1));
                    assert(new_order[k] != node.id);
                    if k >= 2 {
                        assert(o[k - 1] != o[0]);
                    }
                }
            }
        }
    }

    /// Links `node` behind the last node.  `node` must not be linked yet.
    pub fn push_back(&mut self, node: Linker)
        requires
            old(self).wf(),
            !old(self)@.contains(node.id),
        ensures
            final(self).wf(),
            final(self)@ == old(self)@.push(node.id),
    {
        self.ensure_node(node.id);
        let ghost o = self.order@;
        let ghost new_order = o.push(node.id);
        proof {
            assert forall|a: int, b: int| 0 <= a < new_order.len() && 0 <= b < new_order.len() && a != b implies new_order[a] != new_order[b] by {
                if a == o.len() && b < o.len() { assert(o.contains(new_order[b])); }
                if b == o.len() && a < o.len() { assert(o.contains(new_order[a])); }
            }
            assert forall|i: int| 0 <= i < new_order.len() implies new_order[i] < self.nodes@.len() by {
                if i < o.len() { assert(linked_at(self.nodes@, o, i)); }
            }
            lemma_distinct_bounded(new_order, self.nodes@.len());
            vstd::std_specs::vec::axiom_spec_len(&self.nodes);
        }
        let ghost n0 = self.nodes@;
        let tail = self.tail;
        self.nodes.set(node.id, LinkedNode { prev: tail, next: None });
        match tail {
            Some(t) => {
                proof { assert(linked_at(n0, o, o.len() - 1)); }
                self.link_next(t.id, Some(node));
                self.len = self.len + 1;
            },
            None => {
                self.head = Some(node);
                self.len = 1;
            },
        }
        self.tail = Some(node);
        self.order = Ghost(new_order);
        proof {
            assert forall|k: int| 0 <= k < new_order.len() implies #[trigger] linked_at(self.nodes@, new_order, k) by {
                if k < o.len() {
                    assert(linked_at(n0, o, k));
                    assert(new_order[k] != node.id);
                    if k + 1 < o.len() {
                        assert(o[k] != o[o.len() - 1]);
                    }
                }
            }
        }
    }

    /// Unlinks and returns the first node, if any.
    pub fn pop_front(&mut self) -> (r: Option<Linker>)
        requires
            old(self).wf(),
        ensures
            final(self).wf(),
            old(self)@.len() == 0 ==> r is None && final(self)@ == old(self)@,
            old(self)@.len() > 0 ==> r == Some(Linker { id: old(self)@[0] }) && final(self)@ == old(self)@.drop_first(),
    {
        let ghost o = self.order@;
        let ghost n0 = self.nodes@;
        match self.head.take() {
            Some(val) => {
                proof { assert(linked_at(n0, o, 0)); }
                if linker_is_same_option(self.tail.as_ref(), Some(&val)) {
                    proof {
                        if o.len() > 1 {
                            assert(o[0] != o[o.len() - 1]);
                        }
                    }
                    self.tail = None;
                    self.len = 0;
                } else {
                    let next = self.nodes[val.id].get_next();
                    self.head = next;
                    let h = next.unwrap();
                    proof { assert(linked_at(n0, o, 1)); }
                    self.link_prev(h.id, None);
                    self.len = self.len - 1;
                }
                self.order = Ghost(o.drop_first());
                proof {
                    let o1 = o.drop_first();
                    assert forall|k: int| 0 <= k < o1.len() implies #[trigger] linked_at(self.nodes@, o1, k) by {
                        assert(linked_at(n0, o, k + 1));
                        if k >= 1 {
                            assert(o[k + 1] != o[1]);
                        }
                    }
                }
                Some(val)
            },
            None => None,
        }
    }

    /// Unlinks and returns the last node, if any.
    pub fn pop_back(&mut self) -> (r: Option<Linker>)
        requires
            old(self).wf(),
        ensures
            final(self).wf(),
            old(self)@.len() == 0 ==> r is None && final(self)@ == old(self)@,
            old(self)@.len() > 0 ==> r == Some(Linker { id: old(self)@.last() }) && final(self)@ == old(self)@.drop_last(),
    {
        let ghost o = self.order@;
        let ghost n0 = self.nodes@;
        match self.tail.take() {
            Some(val) => {
                proof { assert(linked_at(n0, o, o.len() - 1)); }
                if linker_is_same_option(self.head.as_ref(), Some(&val)) {
                    proof {
                        if o.len() > 1 {
                            assert(o[0] != o[o.len() - 1]);
                        }
                    }
                    self.head = None;
                    self.len = 0;
                } else {
                    let prev = self.nodes[val.id].get_prev();
                    self.tail = prev;
                    let t = prev.unwrap();
                    proof { assert(linked_at(n0, o, o.len() - 2)); }
                    self.link_next(t.id, None);
                    self.len = self.len - 1;
                }
                self.order = Ghost(o.drop_last());
                proof {
                    let o1 = o.drop_last();
                    assert forall|k: int| 0 <= k < o1.len() implies #[trigger] linked_at(self.nodes@, o1, k) by {
                        assert(linked_at(n0, o, k));
                        if k + 1 < o1.len() {
                            assert(o[k] != o[o.len() - 2]);
                        }
                    }
                }
                Some(val)
            },
            None => None,
        }
    }

    /// `true` when `node` is linked into this list.
    pub fn contains(&self, node: &Linker) -> (r: bool)
        requires
            self.wf(),
        ensures
            r == self@.contains(node.id),
    {
        let mut ptr = self.head;
        let ghost mut k: int = 0;
        loop
            invariant
                self.wf(),
                0 <= k <= self.order@.len(),
                ptr == if k < self.order@.len() { Some(Linker { id: self.order@[k] }) } else { None::<Linker> },
                forall|j: int| 0 <= j < k ==> self.order@[j] != node.id,
            decreases self.order@.len() - k,
        {
            match ptr {
                Some(val) => {
                    if val.is_same(node) {
                        return true;
                    }
                    proof { assert(linked_at(self.nodes@, self.order@, k)); }
                    ptr = self.nodes[val.id].get_next();
                    proof { k = k + 1; }
                },
                None => {
                    proof {
                        if self.order@.contains(node.id) {
                            let j = self.order@.index_of(node.id);
                            assert(self.order@[j] == node.id);
                        }
                    }
                    return false;
                },
            }
        }
    }

    /// Unlinks `node`, which must be linked into this list.
    pub fn remove(&mut self, node: &Linker)
        requires
            old(self).wf(),
            old(self)@.contains(node.id),
        ensures
            final(self).wf(),
            final(self)@ == old(self)@.remove(old(self)@.index_of(node.id)),
    {
        let ghost o = self.order@;
        let ghost n0 = self.nodes@;
        let ghost j = o.index_of(node.id);
        proof {
            assert(linked_at(n0, o, j));
            if j > 0 { assert(linked_at(n0, o, j - 1)); }
            if j + 1 < o.len() { assert(linked_at(n0, o, j + 1)); }
        }
        let next = self.nodes[node.id].get_next();
        let prev = self.nodes[node.id].get_prev();
        if let Some(n) = next {
            self.link_prev(n.id, prev);
        }
        let ghost n1 = self.nodes@;
        if let Some(p) = prev {
            self.link_next(p.id, next);
        }
        if linker_is_same_option(self.head.as_ref(), Some(node)) {
            self.head = next;
        }
        if linker_is_same_option(self.tail.as_ref(), Some(node)) {
            self.tail = prev;
        }
        proof {
            if j > 0 { assert(o[0] != node.id); }
            if j + 1 < o.len() { assert(o[o.len() - 1] != node.id); }
        }
        self.len = self.len - 1;
        self.order = Ghost(o.remove(j));
        proof {
            let o1 = o.remove(j);
            assert forall|k: int| 0 <= k < o1.len() implies #[trigger] linked_at(self.nodes@, o1, k) by {
                if k < j {
                    assert(linked_at(n0, o, k));
                    assert(o[k] != o[j]);
                    if j + 1 < o.len() { assert(o[k] != o[j + 1]); }
                } else {
                    assert(linked_at(n0, o, k + 1));
                    assert(o[k + 1] != o[j]);
                    if j > 0 { assert(o[k + 1] != o[j - 1]); }
                }
            }
            assert forall|a: int, b: int| 0 <= a < o1.len() && 0 <= b < o1.len() && a != b implies o1[a] != o1[b] by {
                let oa = if a < j { a } else { a + 1 };
                let ob = if b < j { b } else { b + 1 };
                assert(o1[a] == o[oa] && o1[b] == o[ob]);
            }
        }
    }

    /// Links `node` right after `before`, which must be linked into this
    /// list; `node` must not be linked yet. When `before` is the last node,
    /// `node` becomes the last.
    pub fn insert(&mut self, node: Linker, before: Linker)
        requires
            old(self).wf(),
            !old(self)@.contains(node.id),
            old(self)@.contains(before.id),
        ensures
            final(self).wf(),
            final(self)@ == old(self)@.insert(old(self)@.index_of(before.id) + 1, node.id),
    {
        self.ensure_node(node.id);
        let ghost o = self.order@;
        let ghost j = o.index_of(before.id);
        let ghost p = j + 1;
        let ghost new_order = o.insert(p, node.id);
        proof {
            assert forall|a: int, b: int| 0 <= a < new_order.len() && 0 <= b < new_order.len() && a != b implies new_order[a] != new_order[b] by {
                let oa = if a < p { a } else { a - 1 };
                let ob = if b < p { b } else { b - 1 };
                if a != p && b != p {
                    assert(new_order[a] == o[oa] && new_order[b] == o[ob]);
                } else if a == p {
                    assert(o.contains(new_order[b]));
                } else {
                    assert(o.contains(new_order[a]));
                }
            }
            assert forall|i: int| 0 <= i < new_order.len() implies new_order[i] < self.nodes@.len() by {
                if i < p { assert(linked_at(self.nodes@, o, i)); }
                if i > p { assert(linked_at(self.nodes@, o, i - 1)); }
            }
            lemma_distinct_bounded(new_order, self.nodes@.len());
            vstd::std_specs::vec::axiom_spec_len(&self.nodes);
        }
        let ghost n0 = self.nodes@;
        proof {
            assert(linked_at(n0, o, j));
            if j + 1 < o.len() { assert(linked_at(n0, o, j + 1)); }
        }
        let next = self.nodes[before.id].get_next();
        self.nodes.set(node.id, LinkedNode { prev: Some(before), next: next });
        if let Some(n) = next {
            self.link_prev(n.id, Some(node));
        }
        self.link_next(before.id, Some(node));
        if linker_is_same_option(self.tail.as_ref(), Some(&before)) {
            self.tail = Some(node);
        }
        proof {
            if j + 1 < o.len() { assert(o[o.len() - 1] != before.id); }
            assert(o[0] != node.id);
        }
        self.len = self.len + 1;
        self.order = Ghost(new_order);
        proof {
            assert forall|k: int| 0 <= k < new_order.len() implies #[trigger] linked_at(self.nodes@, new_order, k) by {
                if k < j {
                    assert(linked_at(n0, o, k));
                    assert(o[k] != before.id);
                    assert(o[k] != node.id);
                    if j + 1 < o.len() { assert(o[k] != o[j + 1]); }
                } else if k == j {
                    assert(linked_at(n0, o, j));
                    if j + 1 < o.len() { assert(o[j] != o[j + 1]); }
                } else if k > p {
                    assert(linked_at(n0, o, k - 1));
                    assert(o[k - 1] != node.id);
                    assert(o[k - 1] != before.id);
                    if k > p + 1 { assert(o[k - 1] != o[j + 1]); }
                }
            }
        }
    }

    /// No node is linked twice.
    pub proof fn lemma_distinct(&self)
        requires
            self.wf(),
        ensures
            self@.no_duplicates(),
    {
    }

    /// The link fields the list keeps for node `id`.
    pub closed spec fn link(&self, id: usize) -> LinkedNode {
        if id < self.nodes@.len() { self.nodes@[id as int] } else { LinkedNode { prev: None, next: None } }
    }

    /// Every linked node's links name exactly its neighbours: the first
    /// node has no `prev`, the last no `next`.
    pub proof fn lemma_links(&self, k: int)
        requires
            self.wf(),
            0 <= k < self@.len(),
        ensures
            self.link(self@[k]).prev == prev_of(self@, k),
            self.link(self@[k]).next == next_of(self@, k),
    {
        assert(linked_at(self.nodes@, self.order@, k));
    }

    /// The handle of the node before `node`, which must be linked into this list.
    pub fn prev_node(&self, node: &Linker) -> (r: Option<Linker>)
        requires
            self.wf(),
            self@.contains(node.id),
        ensures
            r == prev_of(self@, self@.index_of(node.id)),
            r == self.link(node.id).prev,
    {
        proof { assert(linked_at(self.nodes@, self.order@, self.order@.index_of(node.id))); }
        self.nodes[node.id].get_prev()
    }

    /// The handle of the node after `node`, which must be linked into this list.
    pub fn next_node(&self, node: &Linker) -> (r: Option<Linker>)
        requires
            self.wf(),
            self@.contains(node.id),
        ensures
            r == next_of(self@, self@.index_of(node.id)),
            r == self.link(node.id).next,
    {
        proof { assert(linked_at(self.nodes@, self.order@, self.order@.index_of(node.id))); }
        self.nodes[node.id].get_next()
    }

    /// A walk over the handles of the linked nodes, front first.
    pub fn iter(&self) -> (r: Iter)
        requires
            self.wf(),
        ensures
            r.wf(),
            r@ == self@,
    {
        let mut items: Vec<Linker> = Vec::new();
        let mut ptr = self.head;
        let mut left = self.len;
        while left > 0
            invariant
                self.wf(),
                left <= self.order@.len(),
                items@.len() + left == self.order@.len(),
                ptr == if left > 0 { Some(Linker { id: self.order@[items@.len() as int] }) } else { None::<Linker> },
                forall|i: int| 0 <= i < items@.len() ==> #[trigger] items@[i].id == self.order@[i],
            decreases left,
        {
            let val = ptr.unwrap();
            proof { assert(linked_at(self.nodes@, self.order@, items@.len() as int)); }
            ptr = self.nodes[val.id].get_next();
            items.push(val);
            left = left - 1;
        }
        let back = items.len();
        let r = Iter { items, front: 0, back };
        proof {
            assert(r@ =~= self@);
        }
        r
    }

    /// Turns the list into a walk that unlinks its nodes as it hands them out.
    pub fn into_iter(self) -> (r: IntoIter)
        requires
            self.wf(),
        ensures
            r.wf(),
            r@ == self@,
    {
        IntoIter { list: self }
    }

    /// A list of the nodes `items`, in that order; no node may occur twice.
    pub fn from_iter(items: Vec<Linker>) -> (r: LinkedList)
        requires
            forall|a: int, b: int| 0 <= a < b < items@.len() ==> items@[a].id != items@[b].id,
        ensures
            r.wf(),
            r@ == items@.map_values(|l: Linker| l.id),
    {
        let mut list = LinkedList::new();
        let mut i: usize = 0;
        while i < items.len()
            invariant
                i <= items@.len(),
                list.wf(),
                forall|a: int, b: int| 0 <= a < b < items@.len() ==> items@[a].id != items@[b].id,
                list@ == items@.subrange(0, i as int).map_values(|l: Linker| l.id),
            decreases items@.len() - i,
        {
            let node = items[i];
            proof {
                if list@.contains(node.id) {
                    let j = list@.index_of(node.id);
                    assert(items@[j].id == list@[j]);
                }
            }
            list.push_back(node);
            i = i + 1;
            proof {
                assert(list@ =~= items@.subrange(0, i as int).map_values(|l: Linker| l.id));
            }
        }
        proof {
            assert(items@.subrange(0, items@.len() as int) =~= items@);
        }
        list
    }
}

/// A walk over the handles of the nodes of a `LinkedList`, from either end.
pub struct Iter {
    items: Vec<Linker>,
    front: usize,
    back: usize,
}

impl View for Iter {
    type V = Seq<usize>;

    /// The ids still to be handed out, front first.
    closed spec fn view(&self) -> Seq<usize> {
        self.items@.subrange(self.front as int, self.back as int).map_values(|l: Linker| l.id)
    }
}

impl Iter {
    /// Internal invariant: the walk stays inside the handles.
    pub closed spec fn wf(&self) -> bool {
        self.front <= self.back <= self.items@.len()
    }

    /// Number of handles still to be handed out.
    pub fn len(&self) -> (r: usize)
        requires
            self.wf(),
        ensures
            r == self@.len(),
    {
        self.back - self.front
    }

    /// Hands out the next handle from the front.
    pub fn next(&mut self) -> (r: Option<Linker>)
        requires
            old(self).wf(),
        ensures
            final(self).wf(),
            old(self)@.len() == 0 ==> r is None && final(self)@ == old(self)@,
            old(self)@.len() > 0 ==> r == Some(Linker { id: old(self)@[0] }) && final(self)@ == old(self)@.drop_first(),
    {
        if self.front == self.back {
            None
        } else {
            let ret = self.items[self.front];
            self.front = self.front + 1;
            proof { assert(self@ =~= old(self)@.drop_first()); }
            Some(ret)
        }
    }

    /// Hands out the next handle from the back.
    pub fn next_back(&mut self) -> (r: Option<Linker>)
        requires
            old(self).wf(),
        ensures
            final(self).wf(),
            old(self)@.len() == 0 ==> r is None && final(self)@ == old(self)@,
            old(self)@.len() > 0 ==> r == Some(Linker { id: old(self)@.last() }) && final(self)@ == old(self)@.drop_last(),
    {
        if self.front == self.back {
            None
        } else {
            self.back = self.back - 1;
            let ret = self.items[self.back];
            proof { assert(self@ =~= old(self)@.drop_last()); }
            Some(ret)
        }
    }

    /// Skips `n` handles from the front and hands out the one after them.
    pub fn nth(&mut self, n: usize) -> (r: Option<Linker>)
        requires
            old(self).wf(),
        ensures
            final(self).wf(),
            n < old(self)@.len() ==> r == Some(Linker { id: old(self)@[n as int] }) && final(self)@ == old(self)@.subrange(n + 1, old(self)@.len() as int),
            n >= old(self)@.len() ==> r is None && final(self)@.len() == 0,
    {
        if n < self.back - self.front {
            self.front = self.front + n;
            let ret = self.items[self.front];
            self.front = self.front + 1;
            proof { assert(self@ =~= old(self)@.subrange(n + 1, old(self)@.len() as int)); }
            Some(ret)
        } else {
            self.front = self.back;
            None
        }
    }

    /// Number of handles still to be handed out, consuming the walk.
    pub fn count(self) -> (r: usize)
        requires
            self.wf(),
        ensures
            r == self@.len(),
    {
        self.back - self.front
    }

    /// The same walk with front and back exchanged.
    pub fn rev(self) -> (r: Iter)
        requires
            self.wf(),
        ensures
            r.wf(),
            r@ == self@.reverse(),
    {
        let mut items: Vec<Linker> = Vec::new();
        let mut i = self.back;
        while i > self.front
            invariant
                self.wf(),
                self.front <= i <= self.back,
                items@.len() == self.back - i,
                forall|k: int| 0 <= k < items@.len() ==> #[trigger] items@[k] == self.items@[self.back - 1 - k],
            decreases i,
        {
            i = i - 1;
            items.push(self.items[i]);
        }
        let back = items.len();
        let r = Iter { items, front: 0, back };
        proof { assert(r@ =~= self@.reverse()); }
        r
    }
}

/// A walk that unlinks the nodes of a `LinkedList` as it hands them out.
pub struct IntoIter {
    list: LinkedList,
}

impl View for IntoIter {
    type V = Seq<usize>;

    /// The ids still to be handed out, front first.
    closed spec fn view(&self) -> Seq<usize> {
        self.list@
    }
}

impl IntoIter {
    /// Internal invariant: the remaining list is well formed.
    pub closed spec fn wf(&self) -> bool {
        self.list.wf()
    }

    /// Number of handles still to be handed out.
    pub fn len(&self) -> (r: usize)
        requires
            self.wf(),
        ensures
            r == self@.len(),
    {
        self.list.len()
    }

    /// Unlinks and hands out the first node.
    pub fn next(&mut self) -> (r: Option<Linker>)
        requires
            old(self).wf(),
        ensures
            final(self).wf(),
            old(self)@.len() == 0 ==> r is None && final(self)@ == old(self)@,
            old(self)@.len() > 0 ==> r == Some(Linker { id: old(self)@[0] }) && final(self)@ == old(self)@.drop_first(),
    {
        self.list.pop_front()
    }

    /// Unlinks and hands out the last node.
    pub fn next_back(&mut self) -> (r: Option<Linker>)
        requires
            old(self).wf(),
        ensures
            final(self).wf(),
            old(self)@.len() == 0 ==> r is None && final(self)@ == old(self)@,
            old(self)@.len() > 0 ==> r == Some(Linker { id: old(self)@.last() }) && final(self)@ == old(self)@.drop_last(),
    {
        self.list.pop_back()
    }
}

/// `pop_back` gives back the node `push_back` linked and restores the
/// order; `pop_front` does the same for `push_front`.
pub proof fn lemma_push_pop(s: Seq<usize>, id: usize)
    ensures
        s.push(id).last() == id,
        s.push(id).drop_last() == s,
        (seq![id] + s)[0] == id,
        (seq![id] + s).drop_first() == s,
{
    assert(s.push(id).drop_last() =~= s);
    assert((seq![id] + s).drop_first() =~= s);
}

/// Removing a node just inserted before the node at `j` gives back the
/// order it went into.
pub proof fn lemma_insert_remove(s: Seq<usize>, id: usize, j: int)
    requires
        !s.contains(id),
        0 <= j <= s.len(),
    ensures
        s.insert(j, id).index_of(id) == j,
        s.insert(j, id).remove(j) == s,
{
    let t = s.insert(j, id);
    assert(t[j] == id);
    assert forall|k: int| 0 <= k < t.len() && t[k] == id implies k == j by {
        if k < j {
            assert(t[k] == s[k]);
        } else if k > j {
            assert(t[k] == s[k - 1]);
        }
    }
    assert(t.contains(id));
    assert(t.index_of(id) == j);
    assert(t.remove(j) =~= s);
}

/// Walking backwards visits the same nodes in reverse: the `n`-th node
/// from the back is the `(len - 1 - n)`-th from the front.
pub proof fn lemma_reverse_nth(s: Seq<usize>, n: int)
    requires
        0 <= n < s.len(),
    ensures
        s.reverse()[n] == s[s.len() - 1 - n],
        s.reverse().len() == s.len(),
{
}

} // verus!
