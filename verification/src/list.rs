//! The double-ended ordered list and its forward iterator.
//!
//! Nodes are stored in an arena (`nodes`); `next` and `prev` are optional
//! arena indices rather than shared pointers, and slots of removed nodes are
//! kept on a free list for reuse. A ghost sequence `order` records the arena
//! index of each chain position from head to tail; the abstract value of a
//! list is the sequence of its elements in that order.

use vstd::prelude::*;

verus! {

broadcast use vstd::std_specs::vec::axiom_spec_len;

/// One link of the chain: an element slot plus the arena indices of the
/// neighbouring nodes. `data` is `None` only in slots on the free list.
pub struct Node<T> {
    pub data: Option<T>,
    pub next: Option<usize>,
    pub prev: Option<usize>,
}

impl<T> Node<T> {
    /// A fresh, unlinked node owning `data`.
    pub fn new(data: T) -> (node: Node<T>)
        ensures
            node.data == Some(data),
            node.next is None,
            node.prev is None,
    {
        Node { data: Some(data), next: None, prev: None }
    }
}

/// An ordered sequence of elements with O(1) insertion and removal at both
/// ends. Its abstract value (the view `self@`) is the sequence of elements
/// from head to tail.
pub struct DoublyLinkedList<T> {
    nodes: Vec<Node<T>>,
    head: Option<usize>,
    tail: Option<usize>,
    size: usize,
    free: Vec<usize>,
    order: Ghost<Seq<usize>>,
}

impl<T> DoublyLinkedList<T> {
    /// The node standing at chain position `i` (0 is the head).
    pub(crate) closed spec fn node_at(&self, i: int) -> Node<T> {
        self.nodes@[self.order@[i] as int]
    }

    /// Structural invariant: `size`, `head`, `tail`, the node links and the
    /// free list all agree with the ghost chain `order`.
    pub closed spec fn wf(&self) -> bool {
        let ord = self.order@;
        let n = ord.len() as int;
        &&& self.size == n
        &&& self.size + self.free@.len() <= self.nodes@.len()
        &&& (if n == 0 {
            self.head is None && self.tail is None
        } else {
            self.head == Some(ord[0]) && self.tail == Some(ord[n - 1])
        })
        &&& (forall|i: int| 0 <= i < n ==> (#[trigger] ord[i]) < self.nodes@.len())
        &&& (forall|i: int, j: int|
            0 <= i < n && 0 <= j < n && i != j ==> #[trigger] ord[i] != #[trigger] ord[j])
        &&& (forall|i: int| 0 <= i < n ==> (#[trigger] self.node_at(i)).data is Some)
        &&& (forall|i: int|
            0 <= i < n ==> (#[trigger] self.node_at(i)).next == (if i + 1 < n {
                Some(ord[i + 1])
            } else {
                None::<usize>
            }))
        &&& (forall|i: int|
            0 <= i < n ==> (#[trigger] self.node_at(i)).prev == (if 0 < i {
                Some(ord[i - 1])
            } else {
                None::<usize>
            }))
        &&& (forall|i: int| 0 <= i < self.free@.len() ==> (#[trigger] self.free@[i]) < self.nodes@.len())
        &&& (forall|i: int, j: int|
            0 <= i < self.free@.len() && 0 <= j < self.free@.len() && i != j
                ==> #[trigger] self.free@[i] != #[trigger] self.free@[j])
        &&& (forall|i: int, j: int|
            0 <= i < self.free@.len() && 0 <= j < n
                ==> #[trigger] self.free@[i] != #[trigger] ord[j])
    }
}

impl<T> View for DoublyLinkedList<T> {
    type V = Seq<T>;

    /// The elements of the list, head first.
    closed spec fn view(&self) -> Seq<T> {
        Seq::new(self.order@.len(), |i: int| self.node_at(i).data.unwrap())
    }
}

impl<T> DoublyLinkedList<T> {
    /// An empty list: no nodes, `size` zero.
    pub fn new() -> (list: DoublyLinkedList<T>)
        ensures
            list.wf(),
            list@ == Seq::<T>::empty(),
    {
        let list = DoublyLinkedList {
            nodes: Vec::new(),
            head: None,
            tail: None,
            size: 0,
            free: Vec::new(),
            order: Ghost(Seq::empty()),
        };
        proof {
            assert(list@ =~= Seq::<T>::empty());
        }
        list
    }

    /// Whether the list holds no elements. Pure query: the result is a
    /// function of the list value alone, so repeated calls agree.
    pub fn is_empty(&self) -> (empty: bool)
        requires
            self.wf(),
        ensures
            empty <==> self@.len() == 0,
    {
        self.size == 0
    }

    /// The number of elements. Pure query: the result is a function of the
    /// list value alone, so repeated calls agree.
    pub fn len(&self) -> (n: usize)
        requires
            self.wf(),
        ensures
            n == self@.len(),
    {
        self.size
    }

    /// Place `node` in the arena and return its index: a free slot is reused
    /// when one exists, otherwise the arena grows by one slot.
    fn alloc_slot(&mut self, node: Node<T>) -> (idx: usize)
        requires
            old(self).wf(),
        ensures
            final(self).head == old(self).head,
            final(self).tail == old(self).tail,
            final(self).size == old(self).size,
            final(self).order == old(self).order,
            idx < final(self).nodes@.len(),
            final(self).nodes@ == old(self).nodes@.push(node).update(idx as int, node)
                || final(self).nodes@ == old(self).nodes@.update(idx as int, node),
            final(self).nodes@[idx as int] == node,
            old(self).nodes@.len() <= final(self).nodes@.len(),
            forall|k: int|
                0 <= k < old(self).nodes@.len() && k != idx
                    ==> final(self).nodes@[k] == old(self).nodes@[k],
            forall|j: int| 0 <= j < old(self).order@.len() ==> old(self).order@[j] != idx,
            final(self).size + final(self).free@.len() < final(self).nodes@.len(),
            forall|i: int|
                0 <= i < final(self).free@.len() ==> (#[trigger] final(self).free@[i])
                    < final(self).nodes@.len() && final(self).free@[i] != idx,
            forall|i: int, j: int|
                0 <= i < final(self).free@.len() && 0 <= j < final(self).free@.len() && i != j
                    ==> #[trigger] final(self).free@[i] != #[trigger] final(self).free@[j],
            forall|i: int, j: int|
                0 <= i < final(self).free@.len() && 0 <= j < final(self).order@.len()
                    ==> #[trigger] final(self).free@[i] != #[trigger] final(self).order@[j],
    {
        match self.free.pop() {
            Some(f) => {
                self.nodes[f] = node;
                f
            },
            None => {
                let idx = self.nodes.len();
                self.nodes.push(node);
                idx
            },
        }
    }

    /// Append `value` after the tail: the sequence of elements gains `value`
    /// as its new last element, and the length grows by one.
    pub fn push_back(&mut self, value: T)
        requires
            old(self).wf(),
        ensures
            final(self).wf(),
            final(self)@ == old(self)@.push(value),
    {
        let ghost old_ord = self.order@;
        let ghost n = old_ord.len() as int;
        let mut node = Node::new(value);
        node.prev = self.tail;
        let idx = self.alloc_slot(node);
        match self.tail {
            Some(t) => {
                let tail_node = &mut self.nodes[t];
                tail_node.next = Some(idx);
            },
            None => {
                self.head = Some(idx);
            },
        }
        self.tail = Some(idx);
        proof {
            assert(self.size + self.free@.len() < self.nodes@.len());
            assert(vstd::std_specs::vec::spec_vec_len(&self.nodes) == self.nodes@.len());
        }
        self.size = self.size + 1;
        self.order = Ghost(old_ord.push(idx));
        proof {
            assert forall|i: int| 0 <= i < n implies self.node_at(i) == (if i < n - 1 {
                old(self).node_at(i)
            } else {
                Node { next: Some(idx), ..old(self).node_at(i) }
            }) by {
                assert(old(self).order@[i] == self.order@[i]);
            }
            assert(self.wf());
            assert(self@ =~= old(self)@.push(value));
        }
    }

    /// Prepend `value` before the head: the sequence of elements gains
    /// `value` as its new first element, and the length grows by one.
    pub fn push_front(&mut self, value: T)
        requires
            old(self).wf(),
        ensures
            final(self).wf(),
            final(self)@ == old(self)@.insert(0, value),
    {
        let ghost old_ord = self.order@;
        let ghost n = old_ord.len() as int;
        let mut node = Node::new(value);
        node.next = self.head;
        let idx = self.alloc_slot(node);
        match self.head {
            Some(h) => {
                let head_node = &mut self.nodes[h];
                head_node.prev = Some(idx);
            },
            None => {
                self.tail = Some(idx);
            },
        }
        self.head = Some(idx);
        proof {
            assert(self.size + self.free@.len() < self.nodes@.len());
            assert(vstd::std_specs::vec::spec_vec_len(&self.nodes) == self.nodes@.len());
        }
        self.size = self.size + 1;
        self.order = Ghost(old_ord.insert(0, idx));
        proof {
            assert forall|i: int| 1 <= i < n + 1 implies self.node_at(i) == (if i > 1 {
                old(self).node_at(i - 1)
            } else {
                Node { prev: Some(idx), ..old(self).node_at(i - 1) }
            }) by {
                assert(old(self).order@[i - 1] == self.order@[i]);
            }
            assert(self.wf());
            assert(self@ =~= old(self)@.insert(0, value));
        }
    }

    /// Detach the tail and hand its element to the caller. On an empty list
    /// there is nothing to detach: the result is `None` and the list is left
    /// untouched. Otherwise the last element is returned and the sequence of
    /// elements loses exactly that element.
    pub fn pop_back(&mut self) -> (popped: Option<T>)
        requires
            old(self).wf(),
        ensures
            final(self).wf(),
            old(self)@.len() == 0 ==> popped is None && *final(self) == *old(self),
            old(self)@.len() > 0 ==> popped == Some(old(self)@.last()) && final(self)@ == old(
                self,
            )@.drop_last(),
    {
        match self.tail {
            None => None,
            Some(t) => {
                let ghost old_ord = self.order@;
                let ghost n = old_ord.len() as int;
                proof {
                    assert(t == old_ord[n - 1]);
                    assert(old(self).node_at(n - 1).data is Some);
                    assert(old(self).node_at(n - 1).prev == (if n > 1 {
                        Some(old_ord[n - 2])
                    } else {
                        None::<usize>
                    }));
                    if n > 1 {
                        assert(old_ord[n - 2] < self.nodes@.len());
                        assert(old_ord[n - 2] != old_ord[n - 1]);
                    }
                }
                let prev = self.nodes[t].prev;
                let tail_node = &mut self.nodes[t];
                let data = tail_node.data.take();
                match prev {
                    Some(p) => {
                        let prev_node = &mut self.nodes[p];
                        prev_node.next = None;
                        self.tail = Some(p);
                    },
                    None => {
                        self.head = None;
                        self.tail = None;
                    },
                }
                self.size = self.size - 1;
                self.free.push(t);
                self.order = Ghost(old_ord.drop_last());
                proof {
                    assert forall|i: int| 0 <= i < n - 1 implies self.node_at(i) == (if i < n - 2 {
                        old(self).node_at(i)
                    } else {
                        Node { next: None::<usize>, ..old(self).node_at(i) }
                    }) by {
                        assert(old(self).order@[i] == self.order@[i]);
                    }
                    assert(self.wf());
                    assert(self@ =~= old(self)@.drop_last());
                    assert(data == Some(old(self)@.last()));
                }
                data
            },
        }
    }

    /// Detach the head and hand its element to the caller. On an empty list
    /// there is nothing to detach: the result is `None` and the list is left
    /// untouched. Otherwise the first element is returned and the sequence of
    /// elements loses exactly that element.
    pub fn pop_front(&mut self) -> (popped: Option<T>)
        requires
            old(self).wf(),
        ensures
            final(self).wf(),
            old(self)@.len() == 0 ==> popped is None && *final(self) == *old(self),
            old(self)@.len() > 0 ==> popped == Some(old(self)@.first()) && final(self)@ == old(
                self,
            )@.drop_first(),
    {
        match self.head {
            None => None,
            Some(h) => {
                let ghost old_ord = self.order@;
                let ghost n = old_ord.len() as int;
                proof {
                    assert(h == old_ord[0]);
                    assert(old(self).node_at(0).data is Some);
                    assert(old(self).node_at(0).next == (if n > 1 {
                        Some(old_ord[1])
                    } else {
                        None::<usize>
                    }));
                    if n > 1 {
                        assert(old_ord[1] < self.nodes@.len());
                        assert(old_ord[1] != old_ord[0]);
                    }
                }
                let next = self.nodes[h].next;
                let head_node = &mut self.nodes[h];
                let data = head_node.data.take();
                match next {
                    Some(nx) => {
                        let next_node = &mut self.nodes[nx];
                        next_node.prev = None;
                        self.head = Some(nx);
                    },
                    None => {
                        self.head = None;
                        self.tail = None;
                    },
                }
                self.size = self.size - 1;
                self.free.push(h);
                self.order = Ghost(old_ord.drop_first());
                proof {
                    assert forall|i: int| 0 <= i < n - 1 implies self.node_at(i) == (if i > 0 {
                        old(self).node_at(i + 1)
                    } else {
                        Node { prev: None::<usize>, ..old(self).node_at(i + 1) }
                    }) by {
                        assert(old(self).order@[i + 1] == self.order@[i]);
                    }
                    assert(self.wf());
                    assert(self@ =~= old(self)@.drop_first());
                    assert(data == Some(old(self)@.first()));
                }
                data
            },
        }
    }

    /// A forward traversal of the list, starting at the head. The iterator
    /// borrows the list for its whole lifetime, so the list cannot be
    /// mutated while a traversal is in progress; a fresh call starts a new
    /// traversal from the then-current head.
    pub fn iter<'a>(&'a self) -> (it: ListIterator<'a, T>)
        requires
            self.wf(),
        ensures
            it.wf(),
            it.elems() == self@,
            it.cursor() == 0,
    {
        ListIterator::new(self)
    }
}

/// A lazy forward cursor over a list: it yields a read-only view of each
/// element in turn, head to tail, and `None` once the chain ends.
pub struct ListIterator<'a, T> {
    list: &'a DoublyLinkedList<T>,
    current: Option<usize>,
    position: Ghost<int>,
}

impl<'a, T> ListIterator<'a, T> {
    /// The full sequence of elements being traversed.
    pub closed spec fn elems(&self) -> Seq<T> {
        self.list@
    }

    /// How many elements have been yielded so far.
    pub closed spec fn cursor(&self) -> int {
        self.position@
    }

    /// The cursor stands between 0 and the length of the sequence, and
    /// `current` is the arena index of the node at the cursor, if any.
    pub closed spec fn wf(&self) -> bool {
        &&& self.list.wf()
        &&& 0 <= self.position@ <= self.elems().len()
        &&& self.current == (if self.position@ < self.elems().len() {
            Some(self.list.order@[self.position@])
        } else {
            None::<usize>
        })
    }

    /// A traversal of `list` positioned at its head.
    pub fn new(list: &'a DoublyLinkedList<T>) -> (it: ListIterator<'a, T>)
        requires
            list.wf(),
        ensures
            it.wf(),
            it.elems() == list@,
            it.cursor() == 0,
    {
        ListIterator { list, current: list.head, position: Ghost(0) }
    }

    /// Yield a view of the element at the cursor and advance, or `None` once
    /// every element has been yielded.
    pub fn next(&mut self) -> (item: Option<&'a T>)
        requires
            old(self).wf(),
        ensures
            final(self).wf(),
            final(self).elems() == old(self).elems(),
            old(self).cursor() < old(self).elems().len() ==> final(self).cursor() == old(
                self,
            ).cursor() + 1 && (item matches Some(v) && *v == old(self).elems()[old(self).cursor()]),
            old(self).cursor() >= old(self).elems().len() ==> item is None && final(self).cursor()
                == old(self).cursor(),
    {
        match self.current {
            None => None,
            Some(idx) => {
                let list = self.list;
                proof {
                    assert(list.node_at(self.position@).data is Some);
                }
                let node = &list.nodes[idx];
                self.current = node.next;
                self.position = Ghost(self.position@ + 1);
                Some(node.data.as_ref().unwrap())
            },
        }
    }
}

} // verus!
