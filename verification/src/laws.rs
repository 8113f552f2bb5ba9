//! Laws of the sequence container and its iterator, stated over their
//! abstract model.
//!
//! The operations are specified against `Seq`: `push` appends, `pop`
//! removes the last element, `insert` and `remove` shift a suffix, and the
//! consuming iterator's `next` and `next_back` drop the first or last
//! remaining element. The proof functions here state the ordering
//! properties that follow.

use vstd::prelude::*;

verus! {

/// The contents after pushing the items of `items`, in order, into a
/// container holding `base`.
pub open spec fn pushed_all<T>(base: Seq<T>, items: Seq<T>) -> Seq<T>
    decreases items.len(),
{
    if items.len() == 0 {
        base
    } else {
        pushed_all(base.push(items.first()), items.drop_first())
    }
}

/// The contents after `k` pops (each pop drops the last element; a pop of
/// an empty container leaves it empty).
pub open spec fn popped<T>(s: Seq<T>, k: nat) -> Seq<T>
    decreases k,
{
    if k == 0 {
        s
    } else if popped(s, (k - 1) as nat).len() == 0 {
        popped(s, (k - 1) as nat)
    } else {
        popped(s, (k - 1) as nat).drop_last()
    }
}

/// Any sequence of pushes appends exactly the pushed items: a container
/// holding `base` afterwards holds `base + items`. In particular, pushing
/// into an empty container leaves exactly the pushed items, so the length
/// equals the number of pushes.
pub proof fn lemma_pushes_append<T>(base: Seq<T>, items: Seq<T>)
    ensures
        pushed_all(base, items) == base + items,
        pushed_all(Seq::<T>::empty(), items) == items,
        pushed_all(Seq::<T>::empty(), items).len() == items.len(),
    decreases items.len(),
{
    if items.len() == 0 {
        assert(pushed_all(base, items) =~= base + items);
        assert(pushed_all(Seq::<T>::empty(), items) =~= items);
    } else {
        lemma_pushes_append(base.push(items.first()), items.drop_first());
        lemma_pushes_append(Seq::<T>::empty().push(items.first()), items.drop_first());
        assert(base.push(items.first()) + items.drop_first() =~= base + items);
        assert(Seq::<T>::empty().push(items.first()) + items.drop_first() =~= items);
    }
}

/// Repeated pops yield the elements in exact reverse push order until the
/// container is empty: after `k` pops of a container holding `s`, the
/// first `len - k` elements remain, the next pop yields `s[len - 1 - k]`,
/// and from the `len`-th pop on the container stays empty and every pop
/// yields nothing.
pub proof fn lemma_pop_order<T>(s: Seq<T>, k: nat)
    ensures
        k <= s.len() ==> popped(s, k) == s.take(s.len() - k),
        k < s.len() ==> popped(s, k).last() == s[s.len() - 1 - k],
        k >= s.len() ==> popped(s, k) == Seq::<T>::empty(),
    decreases k,
{
    if k == 0 {
        assert(popped(s, 0) =~= s.take(s.len() as int));
    } else {
        lemma_pop_order(s, (k - 1) as nat);
        if k <= s.len() {
            assert(popped(s, k) =~= s.take(s.len() - k));
        } else {
            assert(popped(s, k) =~= Seq::<T>::empty());
        }
    }
}

/// The elements an iterator still holds after a given interleaving of
/// front and back extractions: `true` takes from the front, `false` from
/// the back, and extraction from an exhausted iterator takes nothing.
pub open spec fn extracted<T>(s: Seq<T>, ops: Seq<bool>) -> Seq<T>
    decreases ops.len(),
{
    if ops.len() == 0 {
        s
    } else {
        let after = if s.len() == 0 {
            s
        } else if ops.first() {
            s.drop_first()
        } else {
            s.drop_last()
        };
        extracted(after, ops.drop_first())
    }
}

/// How many of the extractions take from the front.
pub open spec fn front_count(ops: Seq<bool>) -> nat
    decreases ops.len(),
{
    if ops.len() == 0 {
        0
    } else {
        (if ops.first() {
            1nat
        } else {
            0nat
        }) + front_count(ops.drop_first())
    }
}

/// Whatever the interleaving, front and back extraction converge on the
/// middle: after `f` front and `b` back extractions of `s` (at most
/// `s.len()` in all), the elements `s[f .. len - b]` remain. So once as
/// many extractions have happened as there were elements, nothing remains:
/// each element is yielded exactly once, from one end or the other.
pub proof fn lemma_two_ended_extraction<T>(s: Seq<T>, ops: Seq<bool>)
    requires
        ops.len() <= s.len(),
    ensures
        front_count(ops) <= ops.len(),
        extracted(s, ops) == s.subrange(
            front_count(ops) as int,
            s.len() - (ops.len() - front_count(ops)),
        ),
        ops.len() == s.len() ==> extracted(s, ops) == Seq::<T>::empty(),
    decreases ops.len(),
{
    if ops.len() == 0 {
        assert(extracted(s, ops) =~= s.subrange(0, s.len() as int));
    } else {
        let f = front_count(ops) as int;
        let b = ops.len() - f;
        let rest = ops.drop_first();
        if ops.first() {
            let after = s.drop_first();
            lemma_two_ended_extraction(after, rest);
            assert(after.subrange(f - 1, after.len() - (rest.len() - front_count(rest)))
                =~= s.subrange(f, s.len() - b));
        } else {
            let after = s.drop_last();
            lemma_two_ended_extraction(after, rest);
            assert(after.subrange(f, after.len() - (rest.len() - front_count(rest)))
                =~= s.subrange(f, s.len() - b));
        }
        if ops.len() == s.len() {
            assert(extracted(s, ops) =~= Seq::<T>::empty());
        }
    }
}

/// Insertion keeps every other element in relative order: elements before
/// the insertion point stay where they were, elements at or after it move
/// up by exactly one slot, and the length grows by exactly one. Inserting
/// at the current length is exactly an append.
pub proof fn lemma_insert_order<T>(s: Seq<T>, i: int, v: T)
    requires
        0 <= i <= s.len(),
    ensures
        s.insert(i, v).len() == s.len() + 1,
        s.insert(i, v)[i] == v,
        forall|j: int| 0 <= j < i ==> s.insert(i, v)[j] == s[j],
        forall|j: int| i <= j < s.len() ==> s.insert(i, v)[j + 1] == s[j],
        s.insert(s.len() as int, v) == s.push(v),
{
    s.insert_ensures(i, v);
    assert(s.insert(s.len() as int, v) =~= s.push(v));
}

/// Removal keeps every remaining element in relative order: elements before
/// the removal point stay where they were, elements after it move down by
/// exactly one slot, and the length shrinks by exactly one.
pub proof fn lemma_remove_order<T>(s: Seq<T>, i: int)
    requires
        0 <= i < s.len(),
    ensures
        s.remove(i).len() == s.len() - 1,
        forall|j: int| 0 <= j < i ==> s.remove(i)[j] == s[j],
        forall|j: int| i <= j < s.len() - 1 ==> s.remove(i)[j] == s[j + 1],
{
    s.remove_ensures(i);
}

} // verus!
