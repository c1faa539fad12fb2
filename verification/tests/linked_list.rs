use lib::lists::linked_list::{LinkedList, Linker};

#[test]
fn test_linked_list() {
    let data: [usize; 4] = [0xFEDC, 0xBA98, 0x7654, 0x3210];
    let mut list = LinkedList::new();

    list.push_back(Linker::new(2));
    list.push_front(Linker::new(1));
    list.push_front(Linker::new(0));
    list.push_back(Linker::new(3));

    assert_eq!(list.front(), Some(Linker::new(0)));
    assert_eq!(list.back(), Some(Linker::new(3)));

    assert_eq!(list.len(), 4);
    assert_eq!(list.iter().count(), 4);
    assert_eq!(list.iter().rev().count(), 4);

    for i in 0..4 {
        assert_eq!(data[list.iter().nth(i).unwrap().id], data[i]);
        assert_eq!(data[list.iter().rev().nth(3 - i).unwrap().id], data[i]);
    }

    list.remove(&Linker::new(2));
    list.remove(&Linker::new(0));

    assert_eq!(data[list.iter().nth(1).unwrap().id], data[3]);
    assert_eq!(data[list.iter().rev().nth(1).unwrap().id], data[1]);
}
