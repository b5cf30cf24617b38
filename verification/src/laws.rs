//! Laws of the double-ended ordered list, stated over its abstract model.
//!
//! The abstract value of a list is a sequence (`DoublyLinkedList::view`), and
//! every operation's contract describes its effect on that sequence:
//! `push_back` appends, `push_front` prepends, `pop_back` removes the last
//! element, `pop_front` the first, and the iterator yields the sequence in
//! order. The proof functions here state the laws that relate those
//! contracts to one another.

use vstd::prelude::*;

use crate::list::DoublyLinkedList;

verus! {

/// One insertion step at an end of the list: `Front(v)` stands for a
/// `push_front(v)` call and `Back(v)` for a `push_back(v)` call.
pub enum Insertion<T> {
    Front(T),
    Back(T),
}

/// The sequence a list holds after performing the insertions `ops`, in
/// order, on a list that held `s`: each `Back` step appends its value, as
/// `push_back` ensures, and each `Front` step prepends its value, as
/// `push_front` ensures.
pub open spec fn after_insertions<T>(s: Seq<T>, ops: Seq<Insertion<T>>) -> Seq<T>
    decreases ops.len(),
{
    if ops.len() == 0 {
        s
    } else {
        let prefix = after_insertions(s, ops.drop_last());
        match ops.last() {
            Insertion::Front(v) => prefix.insert(0, v),
            Insertion::Back(v) => prefix.push(v),
        }
    }
}

/// Law: every insertion grows the list by exactly one element, so after `n`
/// insertions — in any interleaving of `push_front` and `push_back` — the
/// length has grown by `n`, and a list that has seen at least one insertion
/// is not empty.
pub proof fn lemma_insertions_add_to_len<T>(s: Seq<T>, ops: Seq<Insertion<T>>)
    ensures
        after_insertions(s, ops).len() == s.len() + ops.len(),
        ops.len() > 0 ==> after_insertions(s, ops).len() > 0,
    decreases ops.len(),
{
    if ops.len() > 0 {
        lemma_insertions_add_to_len(s, ops.drop_last());
    }
}

/// Law: pushing `vs` element by element to the back of a list holding `s`
/// leaves the list holding `s + vs` — the values appear at the tail, in
/// insertion order.
pub proof fn lemma_back_insertions<T>(s: Seq<T>, vs: Seq<T>)
    ensures
        after_insertions(s, vs.map_values(|v: T| Insertion::Back(v))) == s + vs,
    decreases vs.len(),
{
    let ops = vs.map_values(|v: T| Insertion::Back(v));
    if vs.len() == 0 {
        assert(s + vs =~= s);
    } else {
        lemma_back_insertions(s, vs.drop_last());
        assert(ops.drop_last() =~= vs.drop_last().map_values(|v: T| Insertion::Back(v)));
        assert((s + vs.drop_last()).push(vs.last()) =~= s + vs);
    }
}

/// Law: pushing `vs` element by element to the front of a list holding `s`
/// leaves the list holding `vs.reverse() + s` — each value is prepended, so
/// the values appear at the head in reverse insertion order.
pub proof fn lemma_front_insertions<T>(s: Seq<T>, vs: Seq<T>)
    ensures
        after_insertions(s, vs.map_values(|v: T| Insertion::Front(v))) == vs.reverse() + s,
    decreases vs.len(),
{
    let ops = vs.map_values(|v: T| Insertion::Front(v));
    if vs.len() == 0 {
        assert(vs.reverse() + s =~= s);
    } else {
        lemma_front_insertions(s, vs.drop_last());
        assert(ops.drop_last() =~= vs.drop_last().map_values(|v: T| Insertion::Front(v)));
        assert((vs.drop_last().reverse() + s).insert(0, vs.last()) =~= vs.reverse() + s);
    }
}

/// Law (round trip, back to back): on a list holding `vs`, the `i`-th
/// `pop_back` (counting from zero) returns `vs[vs.len() - 1 - i]` and leaves
/// the list holding `vs.take(vs.len() - 1 - i)`; so pushing `v1..vn` to the
/// back and popping from the back yields them in reverse order `vn..v1`.
pub proof fn lemma_pop_back_round_trip<T>(vs: Seq<T>, i: int)
    requires
        0 <= i < vs.len(),
    ensures
        vs.take(vs.len() - i).last() == vs[vs.len() - 1 - i],
        vs.take(vs.len() - i).drop_last() == vs.take(vs.len() - 1 - i),
{
    assert(vs.take(vs.len() - i).drop_last() =~= vs.take(vs.len() - 1 - i));
}

/// Law (round trip, back to front): on a list holding `vs`, the `i`-th
/// `pop_front` (counting from zero) returns `vs[i]` and leaves the list
/// holding `vs.skip(i + 1)`; so pushing `v1..vn` to the back and popping
/// from the front yields them in the original order `v1..vn`.
pub proof fn lemma_pop_front_round_trip<T>(vs: Seq<T>, i: int)
    requires
        0 <= i < vs.len(),
    ensures
        vs.skip(i).first() == vs[i],
        vs.skip(i).drop_first() == vs.skip(i + 1),
{
    assert(vs.skip(i).drop_first() =~= vs.skip(i + 1));
}

/// Law: popping every element leaves the empty sequence, on which `len` is
/// zero, `is_empty` holds, and — by the contracts of `pop_back` and
/// `pop_front` on an empty list — any further pop returns no value and
/// leaves the list untouched.
pub proof fn lemma_drained_list_is_empty<T>(vs: Seq<T>)
    ensures
        vs.take(0) == Seq::<T>::empty(),
        vs.skip(vs.len() as int) == Seq::<T>::empty(),
{
    assert(vs.take(0) =~= Seq::<T>::empty());
    assert(vs.skip(vs.len() as int) =~= Seq::<T>::empty());
}

/// Law: `len` is a pure query — its result is determined by the list value
/// alone, so any two calls on the same unchanged list return the same
/// number.
pub proof fn lemma_len_consistent<T>(list: &DoublyLinkedList<T>, n1: usize, n2: usize)
    requires
        call_ensures(DoublyLinkedList::<T>::len, (list,), n1),
        call_ensures(DoublyLinkedList::<T>::len, (list,), n2),
    ensures
        n1 == n2,
{
}

/// Law: `is_empty` is a pure query — its result is determined by the list
/// value alone, so any two calls on the same unchanged list return the same
/// answer, and that answer agrees with `len` returning zero.
pub proof fn lemma_is_empty_consistent<T>(
    list: &DoublyLinkedList<T>,
    e1: bool,
    e2: bool,
    n: usize,
)
    requires
        call_ensures(DoublyLinkedList::<T>::is_empty, (list,), e1),
        call_ensures(DoublyLinkedList::<T>::is_empty, (list,), e2),
        call_ensures(DoublyLinkedList::<T>::len, (list,), n),
    ensures
        e1 == e2,
        e1 <==> n == 0,
{
}

} // verus!
