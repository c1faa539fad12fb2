use lib::lists::fixed_list::FixedList;
use lib::lists::fixed_queue::FixedQueue;
use lib::lists::linked_list::{LinkedList, LinkedNode, Linker, linker_is_same_option};
use lib::lists::ring_buffer::RingBuffer;
use lib::lists::sorted_list::SortedList;

#[test]
fn ring_buffer_is_first_in_first_out() {
    let mut b = RingBuffer::new(vec![0u32; 4]);
    assert!(b.is_empty());
    b.push(10);
    b.push(20);
    assert_eq!(b.len(), 2);
    assert_eq!(b.peek(0), Some(&10));
    assert_eq!(b.peek(1), Some(&20));
    assert_eq!(b.peek(2), None);
    assert_eq!(b.pop(), Some(10));
    assert_eq!(b.pop(), Some(20));
    assert_eq!(b.pop(), None);
    assert!(b.is_empty());
}

#[test]
fn ring_buffer_full_push_drops_oldest() {
    let mut b = RingBuffer::new(vec![0u32; 4]);
    b.push(1);
    b.push(2);
    b.push(3);
    assert_eq!(b.len(), 3);
    b.push(4);
    assert_eq!(b.len(), 3);
    assert_eq!(b.pop(), Some(2));
    assert_eq!(b.pop(), Some(3));
    assert_eq!(b.pop(), Some(4));
    assert_eq!(b.pop(), None);
}

#[test]
fn ring_buffer_wraps_around() {
    let mut b = RingBuffer::new(vec![0u32; 2]);
    for i in 0..10u32 {
        b.push(i);
        assert_eq!(b.len(), 1);
        assert_eq!(b.pop(), Some(i));
    }
}

#[test]
fn ring_buffer_try_push() {
    let mut b = RingBuffer::new(vec![0u32; 4]);
    assert!(b.try_push(1));
    assert!(b.try_push(2));
    assert!(b.try_push(3));
    assert_eq!(b.len(), 3);
    // The buffer is full: the value is refused and the buffer is emptied.
    assert!(!b.try_push(4));
    assert_eq!(b.len(), 0);
    assert_eq!(b.pop(), None);
}

#[test]
fn ring_buffer_clear() {
    let mut b = RingBuffer::new(vec![0u32; 8]);
    b.push(5);
    b.push(6);
    b.clear();
    assert!(b.is_empty());
    b.push(7);
    assert_eq!(b.pop(), Some(7));
}

#[test]
fn fixed_queue_fifo_and_overflow() {
    let mut q = FixedQueue::new(vec![0u8; 3]);
    assert!(q.is_empty());
    q.push(1);
    q.push(2);
    assert_eq!(q.len(), 2);
    q.push(3);
    assert_eq!(q.len(), 2);
    assert_eq!(q.peek(0), Some(&2));
    assert_eq!(q.peek(1), Some(&3));
    assert_eq!(q.peek(2), None);
    assert_eq!(q.pop(), Some(2));
    assert_eq!(q.pop(), Some(3));
    assert_eq!(q.pop(), None);
}

#[test]
fn fixed_queue_emplace_back() {
    let mut q = FixedQueue::new(vec![0u16; 4]);
    *q.emplace_back() = 0xABCD;
    *q.emplace_back() = 0x1234;
    assert_eq!(q.pop(), Some(0xABCD));
    assert_eq!(q.pop(), Some(0x1234));
    q.clear();
    assert_eq!(q.len(), 0);
}

#[test]
fn fixed_list_basic_operations() {
    let mut l = FixedList::new(vec![0u32; 4]);
    assert_eq!(l.len(), 0);
    // is_empty answers true for a list that holds values.
    assert!(!l.is_empty());
    assert_eq!(l.front(), None);
    assert_eq!(l.back(), None);
    l.push_back(1);
    l.push_back(2);
    l.push_back(3);
    assert!(l.is_empty());
    assert_eq!(l.len(), 3);
    assert_eq!(l.front(), Some(&1));
    assert_eq!(l.back(), Some(&3));
    l.insert(1, 9);
    assert_eq!(l.len(), 4);
    let all: Vec<u32> = {
        let mut v = Vec::new();
        let mut it = l.iter();
        while let Some(x) = it.next() {
            v.push(*x);
        }
        v
    };
    assert_eq!(all, vec![1, 9, 2, 3]);
    assert_eq!(l.remove(1), 9);
    assert_eq!(l.pop_back(), Some(3));
    assert_eq!(l.len(), 2);
    l.swap(0, 1);
    assert_eq!(l.front(), Some(&2));
    assert_eq!(l.back(), Some(&1));
    if let Some(x) = l.get(0) {
        *x = 40;
    }
    assert_eq!(l.get(5), None);
    assert_eq!(l.front(), Some(&40));
    if let Some(x) = l.front_mut() {
        *x += 1;
    }
    if let Some(x) = l.back_mut() {
        *x += 2;
    }
    assert_eq!(l.front(), Some(&41));
    assert_eq!(l.back(), Some(&3));
    l.clear();
    assert_eq!(l.len(), 0);
    assert_eq!(l.pop_back(), None);
}

#[test]
fn fixed_list_iter_mut_changes_values() {
    let mut l = FixedList::new(vec![0u32; 3]);
    l.push_back(1);
    l.push_back(2);
    l.push_back(3);
    {
        let mut it = l.iter_mut();
        while let Some(x) = it.next() {
            *x *= 10;
        }
    }
    let mut it = l.iter();
    assert_eq!(it.len(), 3);
    assert_eq!(it.next(), Some(&10));
    assert_eq!(it.next(), Some(&20));
    assert_eq!(it.next(), Some(&30));
    assert_eq!(it.next(), None);
}

#[test]
fn fixed_list_remove_for() {
    // One value: a plain removal.
    let mut l = FixedList::new(vec![0u32; 5]);
    for v in [1u32, 2, 3, 4, 5] {
        l.push_back(v);
    }
    l.remove_for(1, 1);
    let mut it = l.iter();
    let mut got = Vec::new();
    while let Some(x) = it.next() {
        got.push(*x);
    }
    assert_eq!(got, vec![1, 3, 4, 5]);

    // Two values from the front: the length drops by two and
    // len - count - (index + count - 1) = 2 values move down.
    let mut l = FixedList::new(vec![0u32; 5]);
    for v in [1u32, 2, 3, 4, 5] {
        l.push_back(v);
    }
    l.remove_for(0, 2);
    let mut it = l.iter();
    let mut got = Vec::new();
    while let Some(x) = it.next() {
        got.push(*x);
    }
    assert_eq!(got, vec![3, 4, 3]);
}

#[test]
fn linked_list_pop_undoes_push() {
    let mut list = LinkedList::new();
    assert!(list.is_empty());
    list.push_back(Linker::new(7));
    list.push_front(Linker::new(5));
    list.push_back(Linker::new(9));
    assert_eq!(list.pop_front(), Some(Linker::new(5)));
    // The new first node has no node before it.
    assert_eq!(list.prev_node(&Linker::new(7)), None);
    assert_eq!(list.pop_back(), Some(Linker::new(9)));
    assert_eq!(list.pop_back(), Some(Linker::new(7)));
    assert_eq!(list.pop_front(), None);
    assert_eq!(list.pop_back(), None);
    assert_eq!(list.len(), 0);
}

#[test]
fn linked_list_insert_and_walk() {
    let mut list = LinkedList::new();
    list.push_back(Linker::new(1));
    list.push_back(Linker::new(3));
    // The new node goes right after the given one.
    list.insert(Linker::new(2), Linker::new(1));
    assert!(list.contains(&Linker::new(2)));
    assert!(!list.contains(&Linker::new(4)));
    assert_eq!(list.next_node(&Linker::new(1)), Some(Linker::new(2)));
    assert_eq!(list.next_node(&Linker::new(3)), None);
    assert_eq!(list.prev_node(&Linker::new(2)), Some(Linker::new(1)));
    assert_eq!(list.prev_node(&Linker::new(1)), None);
    let mut it = list.iter();
    assert_eq!(it.len(), 3);
    assert_eq!(it.next(), Some(Linker::new(1)));
    assert_eq!(it.next_back(), Some(Linker::new(3)));
    assert_eq!(it.next(), Some(Linker::new(2)));
    assert_eq!(it.next(), None);
    // After the last node, the new node becomes the last.
    list.insert(Linker::new(4), Linker::new(3));
    assert_eq!(list.back(), Some(Linker::new(4)));
    list.remove(&Linker::new(4));
    list.remove(&Linker::new(2));
    assert_eq!(list.len(), 2);
    assert!(!list.contains(&Linker::new(2)));
    let mut into = list.into_iter();
    assert_eq!(into.len(), 2);
    assert_eq!(into.next_back(), Some(Linker::new(3)));
    assert_eq!(into.next(), Some(Linker::new(1)));
    assert_eq!(into.next(), None);
}

#[test]
fn linked_list_from_iter_and_clear() {
    let mut list = LinkedList::from_iter(vec![Linker::new(4), Linker::new(2), Linker::new(9)]);
    assert_eq!(list.len(), 3);
    assert_eq!(list.front(), Some(Linker::new(4)));
    assert_eq!(list.back(), Some(Linker::new(9)));
    assert_eq!(list.iter().rev().nth(0), Some(Linker::new(9)));
    assert_eq!(list.iter().nth(3), None);
    list.clear();
    assert!(list.is_empty());
    assert_eq!(list.front(), None);
}

#[test]
fn linker_identity() {
    let a = Linker::new(3);
    assert!(a.is_same(&Linker::new(3)));
    assert!(!a.is_same(&Linker::new(4)));
    assert!(linker_is_same_option(Some(&a), Some(&Linker::new(3))));
    assert!(!linker_is_same_option(None, None));
    assert!(!linker_is_same_option(Some(&a), None));
    let mut n = LinkedNode::new();
    assert_eq!(n.get_prev(), None);
    n.set_prev(Some(Linker::new(1)));
    n.set_next(Some(Linker::new(2)));
    assert_eq!(n.get_prev(), Some(Linker::new(1)));
    assert_eq!(n.get_next(), Some(Linker::new(2)));
}

#[test]
fn sorted_list_keeps_key_order() {
    let mut s = SortedList::new();
    assert!(s.is_empty());
    s.push(Linker::new(0), 30);
    s.push(Linker::new(1), 10);
    s.push(Linker::new(2), 20);
    s.push(Linker::new(3), 10);
    assert_eq!(s.len(), 4);
    // Equal keys keep the order in which they came.
    let mut it = s.iter();
    assert_eq!(it.next(), Some(Linker::new(1)));
    assert_eq!(it.next(), Some(Linker::new(3)));
    assert_eq!(it.next(), Some(Linker::new(2)));
    assert_eq!(it.next(), Some(Linker::new(0)));
    assert_eq!(s.front(), Some(Linker::new(1)));
    assert_eq!(s.back(), Some(Linker::new(0)));
    assert!(s.contains(&Linker::new(2)));
    s.remove(&Linker::new(2));
    assert!(!s.contains(&Linker::new(2)));
    assert_eq!(s.pop_front(), Some(Linker::new(1)));
    assert_eq!(s.pop_back(), Some(Linker::new(0)));
    assert_eq!(s.len(), 1);
    s.clear();
    assert_eq!(s.pop_front(), None);
}
