use deol::list::{DoublyLinkedList, ListIterator, Node};

fn collect(list: &DoublyLinkedList<i32>) -> Vec<i32> {
    let mut out = Vec::new();
    let mut it = list.iter();
    while let Some(v) = it.next() {
        out.push(*v);
    }
    out
}

#[test]
fn new_list_is_empty() {
    let list: DoublyLinkedList<i32> = DoublyLinkedList::new();
    assert!(list.is_empty());
    assert_eq!(list.len(), 0);
    assert_eq!(collect(&list), Vec::<i32>::new());
}

#[test]
fn pops_on_empty_list_return_no_value() {
    let mut list: DoublyLinkedList<i32> = DoublyLinkedList::new();
    assert_eq!(list.pop_back(), None);
    assert_eq!(list.pop_front(), None);
    assert!(list.is_empty());
}

#[test]
fn len_counts_insertions() {
    let mut list = DoublyLinkedList::new();
    for n in 1..=10 {
        if n % 2 == 0 {
            list.push_back(n);
        } else {
            list.push_front(n);
        }
        assert_eq!(list.len(), n as usize);
        assert!(!list.is_empty());
    }
}

#[test]
fn push_back_pop_back_reverses() {
    let mut list = DoublyLinkedList::new();
    for v in [10, 20, 30, 40] {
        list.push_back(v);
    }
    let mut popped = Vec::new();
    while let Some(v) = list.pop_back() {
        popped.push(v);
    }
    assert_eq!(popped, vec![40, 30, 20, 10]);
    assert!(list.is_empty());
}

#[test]
fn push_back_pop_front_keeps_order() {
    let mut list = DoublyLinkedList::new();
    for v in [10, 20, 30, 40] {
        list.push_back(v);
    }
    let mut popped = Vec::new();
    while let Some(v) = list.pop_front() {
        popped.push(v);
    }
    assert_eq!(popped, vec![10, 20, 30, 40]);
    assert!(list.is_empty());
}

#[test]
fn interleaved_insertions_iterate_in_order() {
    // back 1, front 2, back 3, front 4 -> [4, 2, 1, 3]
    let mut list = DoublyLinkedList::new();
    list.push_back(1);
    list.push_front(2);
    list.push_back(3);
    list.push_front(4);
    assert_eq!(collect(&list), vec![4, 2, 1, 3]);

    // front 1, front 2, back 3, back 4 -> [2, 1, 3, 4]
    let mut other = DoublyLinkedList::new();
    other.push_front(1);
    other.push_front(2);
    other.push_back(3);
    other.push_back(4);
    assert_eq!(collect(&other), vec![2, 1, 3, 4]);
}

#[test]
fn drained_list_is_empty_and_stays_empty() {
    let mut list = DoublyLinkedList::new();
    list.push_front(5);
    list.push_back(6);
    list.push_back(7);
    assert_eq!(list.pop_front(), Some(5));
    assert_eq!(list.pop_back(), Some(7));
    assert_eq!(list.pop_back(), Some(6));
    assert!(list.is_empty());
    assert_eq!(list.len(), 0);
    assert_eq!(list.pop_back(), None);
    assert_eq!(list.pop_front(), None);
    assert!(list.is_empty());
    assert_eq!(list.len(), 0);
}

#[test]
fn scenario_four_insertions() {
    let mut list = DoublyLinkedList::new();
    list.push_back(1);
    list.push_back(2);
    list.push_front(0);
    list.push_front(-1);
    assert_eq!(list.len(), 4);
    assert_eq!(collect(&list), vec![-1, 0, 1, 2]);
}

#[test]
fn scenario_pops_after_four_insertions() {
    let mut list = DoublyLinkedList::new();
    list.push_back(1);
    list.push_back(2);
    list.push_front(0);
    list.push_front(-1);
    assert_eq!(list.pop_back(), Some(2));
    assert_eq!(list.pop_front(), Some(-1));
    assert_eq!(collect(&list), vec![0, 1]);
}

#[test]
fn scenario_drain_remainder_from_front() {
    let mut list = DoublyLinkedList::new();
    list.push_back(1);
    list.push_back(2);
    list.push_front(0);
    list.push_front(-1);
    list.pop_back();
    list.pop_front();
    let mut popped = Vec::new();
    while let Some(v) = list.pop_front() {
        popped.push(v);
    }
    assert_eq!(popped, vec![0, 1]);
    assert!(list.is_empty());
}

#[test]
fn queries_are_idempotent() {
    let mut list = DoublyLinkedList::new();
    assert_eq!(list.is_empty(), list.is_empty());
    assert_eq!(list.len(), list.len());
    list.push_back(9);
    assert_eq!(list.is_empty(), list.is_empty());
    assert_eq!(list.len(), list.len());
    assert_eq!(list.len(), 1);
    assert!(!list.is_empty());
}

#[test]
fn slots_are_reused_across_pops_and_pushes() {
    let mut list = DoublyLinkedList::new();
    list.push_back(1);
    list.push_back(2);
    assert_eq!(list.pop_front(), Some(1));
    list.push_back(3);
    list.push_front(0);
    assert_eq!(collect(&list), vec![0, 2, 3]);
    assert_eq!(list.pop_back(), Some(3));
    assert_eq!(list.pop_back(), Some(2));
    list.push_front(7);
    assert_eq!(collect(&list), vec![7, 0]);
    assert_eq!(list.len(), 2);
}

#[test]
fn list_holds_owned_values() {
    let mut list: DoublyLinkedList<String> = DoublyLinkedList::new();
    list.push_back(String::from("middle"));
    list.push_front(String::from("first"));
    list.push_back(String::from("last"));
    assert_eq!(list.pop_front(), Some(String::from("first")));
    assert_eq!(list.pop_back(), Some(String::from("last")));
    assert_eq!(list.pop_back(), Some(String::from("middle")));
    assert_eq!(list.pop_back(), None);
}

#[test]
fn node_starts_unlinked() {
    let node = Node::new(42);
    assert_eq!(node.data, Some(42));
    assert!(node.next.is_none());
    assert!(node.prev.is_none());
}

#[test]
fn iterator_yields_elements_then_none() {
    let mut list = DoublyLinkedList::new();
    list.push_back(1);
    list.push_back(2);
    let mut it = ListIterator::new(&list);
    assert_eq!(it.next(), Some(&1));
    assert_eq!(it.next(), Some(&2));
    assert_eq!(it.next(), None);
    assert_eq!(it.next(), None);
}

#[test]
fn fresh_iteration_starts_from_current_head() {
    let mut list = DoublyLinkedList::new();
    list.push_back(2);
    list.push_front(1);
    assert_eq!(collect(&list), vec![1, 2]);
    list.pop_front();
    assert_eq!(collect(&list), vec![2]);
}
