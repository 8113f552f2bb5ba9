//! A growable sequence container.
//!
//! The container owns a buffer of `capacity` slots of which the first
//! `length` are initialized. Slots are held as `Option` values: a `Some`
//! slot is initialized, a `None` slot is allocated but vacant. Growth
//! doubles the capacity (or allocates a single slot from empty), so that
//! appending is O(1) amortized.

use vstd::prelude::*;

verus! {

/// Capacity after one growth step: one slot from empty, else double.
pub open spec fn grown_capacity(cap: nat) -> nat {
    if cap == 0 {
        1
    } else {
        2 * cap
    }
}

/// Capacity after an operation that stores one more element: unchanged if a
/// vacant slot exists, else grown.
pub open spec fn stored_capacity(len: nat, cap: nat) -> nat {
    if len < cap {
        cap
    } else {
        grown_capacity(cap)
    }
}

/// A growable, contiguous sequence container.
///
/// Abstractly it is the sequence of its initialized elements, exposed as
/// the view `self@`.
pub struct Vec<T> {
    buf: std::vec::Vec<Option<T>>,
    len: usize,
}

impl<T> View for Vec<T> {
    type V = Seq<T>;

    closed spec fn view(&self) -> Seq<T> {
        Seq::new(self.len as nat, |i: int| self.buf@[i]->0)
    }
}

impl<T> Vec<T> {
    /// Well-formedness: the initialized elements form a contiguous prefix of
    /// the buffer, and every slot past `len` is vacant.
    pub closed spec fn wf(self) -> bool {
        &&& self.len <= self.buf@.len()
        &&& forall|i: int| 0 <= i < self.len ==> self.buf@[i] is Some
        &&& forall|i: int| self.len <= i < self.buf@.len() ==> self.buf@[i] is None
    }

    /// Number of element slots currently allocated.
    pub closed spec fn spec_capacity(self) -> nat {
        self.buf@.len()
    }

    /// Create a new empty container. No slots are allocated.
    pub fn new() -> (v: Vec<T>)
        ensures
            v.wf(),
            v@ == Seq::<T>::empty(),
            v.spec_capacity() == 0,
    {
        let v = Vec { buf: std::vec::Vec::new(), len: 0 };
        proof {
            assert(v@ =~= Seq::<T>::empty());
        }
        v
    }

    /// Number of initialized elements.
    pub fn length(&self) -> (n: usize)
        ensures
            n == self@.len(),
    {
        self.len
    }

    /// Number of allocated slots.
    pub fn capacity(&self) -> (n: usize)
        ensures
            n == self.spec_capacity(),
    {
        self.buf.len()
    }

    /// Grow the buffer: allocate one slot from empty, else double the
    /// capacity. The elements are unchanged. Called only when the buffer is
    /// full; the doubled slot count must still fit in `usize`, since a
    /// request beyond the address space is an unrecoverable fault.
    fn grow(&mut self)
        requires
            old(self).wf(),
            old(self).len == old(self).spec_capacity(),
            2 * old(self).spec_capacity() <= usize::MAX,
        ensures
            final(self).wf(),
            final(self)@ == old(self)@,
            final(self).len == old(self).len,
            final(self).spec_capacity() == grown_capacity(old(self).spec_capacity()),
    {
        let ghost init = *self;
        let cap = self.buf.len();
        if cap == 0 {
            self.buf.push(None);
        } else {
            let mut added: usize = 0;
            while added < cap
                invariant
                    added <= cap,
                    cap == init.buf@.len(),
                    self.len == init.len,
                    self.buf@.len() == init.buf@.len() + added,
                    forall|i: int| 0 <= i < init.buf@.len() ==> self.buf@[i] == init.buf@[i],
                    forall|i: int|
                        init.buf@.len() <= i < self.buf@.len() ==> self.buf@[i] is None,
                decreases cap - added,
            {
                self.buf.push(None);
                added = added + 1;
            }
        }
        proof {
            assert forall|i: int| 0 <= i < self.len implies self.buf@[i] is Some by {
                assert(self.buf@[i] == init.buf@[i]);
            }
            assert(self@ =~= init@);
        }
    }

    /// Append a value at the end, growing first if the buffer is full.
    /// O(1) amortized. The length bound keeps the doubled capacity
    /// representable; a container that large could not be grown anyway.
    pub fn push(&mut self, element: T)
        requires
            old(self).wf(),
            old(self)@.len() <= usize::MAX / 2,
        ensures
            final(self).wf(),
            final(self)@ == old(self)@.push(element),
            final(self).spec_capacity() == stored_capacity(
                old(self)@.len(),
                old(self).spec_capacity(),
            ),
    {
        if self.len == self.buf.len() {
            self.grow();
        }
        let i = self.len;
        self.buf[i] = Some(element);
        self.len = self.len + 1;
        proof {
            assert(self@ =~= old(self)@.push(element));
        }
    }

    /// Remove and return the last element, or `None` if the container is
    /// empty — an ordinary outcome, not an error. The capacity is unchanged.
    pub fn pop(&mut self) -> (r: Option<T>)
        requires
            old(self).wf(),
        ensures
            final(self).wf(),
            final(self).spec_capacity() == old(self).spec_capacity(),
            old(self)@.len() == 0 ==> r is None && final(self)@ == old(self)@,
            old(self)@.len() > 0 ==> r == Some(old(self)@.last()) && final(self)@ == old(
                self,
            )@.drop_last(),
    {
        if self.len == 0 {
            None
        } else {
            self.len = self.len - 1;
            let i = self.len;
            let r = self.buf[i].take();
            proof {
                assert(self@ =~= old(self)@.drop_last());
            }
            r
        }
    }

    /// A reference to the element in the given slot; the slot must be
    /// initialized. An out-of-range index is a caller bug, not a
    /// recoverable error, so the precondition excludes it.
    pub fn get(&self, index: usize) -> (r: &T)
        requires
            self.wf(),
            index < self@.len(),
        ensures
            *r == self@[index as int],
    {
        self.buf[index].as_ref().unwrap()
    }

    /// Insert a value at the given index, shifting the elements at and
    /// after it one slot to the right. O(n - index). The index must not
    /// exceed the length: a gap past the end is a caller bug, which the
    /// precondition excludes. The length bound keeps the doubled capacity
    /// representable.
    pub fn insert(&mut self, index: usize, element: T)
        requires
            old(self).wf(),
            index <= old(self)@.len(),
            old(self)@.len() <= usize::MAX / 2,
        ensures
            final(self).wf(),
            final(self)@ == old(self)@.insert(index as int, element),
            final(self).spec_capacity() == stored_capacity(
                old(self)@.len(),
                old(self).spec_capacity(),
            ),
    {
        if self.len == self.buf.len() {
            self.grow();
        }
        let ghost pre = *self;
        let mut j: usize = self.len;
        while j > index
            invariant
                index <= j <= pre.len,
                pre.wf(),
                pre.len < pre.buf@.len(),
                self.len == pre.len,
                self.buf@.len() == pre.buf@.len(),
                forall|k: int| 0 <= k < j ==> self.buf@[k] == pre.buf@[k],
                self.buf@[j as int] is None,
                forall|k: int| j < k <= pre.len ==> self.buf@[k] == pre.buf@[k - 1],
                forall|k: int| pre.len < k < self.buf@.len() ==> self.buf@[k] is None,
            decreases j,
        {
            let moved = self.buf[j - 1].take();
            self.buf[j] = moved;
            j = j - 1;
        }
        self.buf[index] = Some(element);
        self.len = self.len + 1;
        proof {
            assert forall|i: int| 0 <= i < self.len implies self.buf@[i] is Some by {
                if i < index {
                    assert(self.buf@[i] == pre.buf@[i]);
                } else if i > index {
                    assert(self.buf@[i] == pre.buf@[i - 1]);
                }
            }
            old(self)@.insert_ensures(index as int, element);
            assert(self@ =~= old(self)@.insert(index as int, element));
        }
    }

    /// Remove and return the value at the given index, shifting the
    /// elements after it one slot to the left. O(n - index). The index must
    /// be in range: an out-of-range index is a caller bug, which the
    /// precondition excludes. The capacity is unchanged.
    pub fn remove(&mut self, index: usize) -> (r: T)
        requires
            old(self).wf(),
            index < old(self)@.len(),
        ensures
            final(self).wf(),
            r == old(self)@[index as int],
            final(self)@ == old(self)@.remove(index as int),
            final(self).spec_capacity() == old(self).spec_capacity(),
    {
        let ghost pre = *self;
        let r_opt = self.buf[index].take();
        let r = r_opt.unwrap();
        let mut j: usize = index;
        while j + 1 < self.len
            invariant
                index <= j < pre.len,
                pre.wf(),
                self.len == pre.len,
                self.buf@.len() == pre.buf@.len(),
                forall|k: int| 0 <= k < index ==> self.buf@[k] == pre.buf@[k],
                forall|k: int| index <= k < j ==> self.buf@[k] == pre.buf@[k + 1],
                self.buf@[j as int] is None,
                forall|k: int| j < k < pre.buf@.len() ==> self.buf@[k] == pre.buf@[k],
            decreases pre.len - j,
        {
            let moved = self.buf[j + 1].take();
            self.buf[j] = moved;
            j = j + 1;
        }
        self.len = self.len - 1;
        proof {
            assert forall|i: int| 0 <= i < self.len implies self.buf@[i] is Some by {
                if i < index {
                    assert(self.buf@[i] == pre.buf@[i]);
                } else {
                    assert(self.buf@[i] == pre.buf@[i + 1]);
                }
            }
            assert forall|i: int| self.len <= i < self.buf@.len() implies self.buf@[i]
                is None by {
                if i > j {
                    assert(self.buf@[i] == pre.buf@[i]);
                }
            }
            old(self)@.remove_ensures(index as int);
            assert(self@ =~= old(self)@.remove(index as int));
        }
        r
    }

    /// Overwrite the element in the given slot; the slot must be
    /// initialized. An out-of-range index is a caller bug, not a
    /// recoverable error, so the precondition excludes it.
    pub fn set(&mut self, index: usize, value: T)
        requires
            old(self).wf(),
            index < old(self)@.len(),
        ensures
            final(self).wf(),
            final(self)@ == old(self)@.update(index as int, value),
    {
        self.buf[index] = Some(value);
        proof {
            assert(self@ =~= old(self)@.update(index as int, value));
        }
    }

    /// Consume the container into an iterator over its elements. The whole
    /// buffer, with every remaining element, passes to the iterator; the
    /// container is gone and cannot free anything a second time.
    pub fn into_iter(self) -> (it: IntoIter<T>)
        requires
            self.wf(),
        ensures
            it.wf(),
            it@ == self@,
            it.spec_capacity() == self.spec_capacity(),
    {
        let end = self.len;
        let it = IntoIter { buf: self.buf, start: 0, end };
        proof {
            assert(it@ =~= self@);
        }
        it
    }
}

/// A consuming double-ended iterator over a [`Vec`].
///
/// It owns the buffer that the container gave up. The elements still to be
/// yielded occupy the slots between two cursors, `start` (next from the
/// front) and `end` (one past the next from the back); slots outside that
/// range have already been moved out. Its view is the sequence of elements
/// not yet yielded.
pub struct IntoIter<T> {
    buf: std::vec::Vec<Option<T>>,
    start: usize,
    end: usize,
}

impl<T> View for IntoIter<T> {
    type V = Seq<T>;

    closed spec fn view(&self) -> Seq<T> {
        Seq::new((self.end - self.start) as nat, |i: int| self.buf@[self.start + i]->0)
    }
}

impl<T> IntoIter<T> {
    /// Well-formedness: the cursors never cross, the slots between them
    /// hold the remaining elements, and every slot outside them is vacant.
    pub closed spec fn wf(self) -> bool {
        &&& self.start <= self.end <= self.buf@.len()
        &&& forall|i: int| self.start <= i < self.end ==> self.buf@[i] is Some
        &&& forall|i: int| 0 <= i < self.start ==> self.buf@[i] is None
        &&& forall|i: int| self.end <= i < self.buf@.len() ==> self.buf@[i] is None
    }

    /// Number of slots of the buffer this iterator owns.
    pub closed spec fn spec_capacity(self) -> nat {
        self.buf@.len()
    }

    /// Yield the frontmost remaining element, or `None` once the iterator
    /// is exhausted — an ordinary outcome, not an error.
    pub fn next(&mut self) -> (r: Option<T>)
        requires
            old(self).wf(),
        ensures
            final(self).wf(),
            final(self).spec_capacity() == old(self).spec_capacity(),
            old(self)@.len() == 0 ==> r is None && final(self)@ == old(self)@,
            old(self)@.len() > 0 ==> r == Some(old(self)@.first()) && final(self)@ == old(
                self,
            )@.drop_first(),
    {
        if self.start == self.end {
            None
        } else {
            let i = self.start;
            let r = self.buf[i].take();
            self.start = self.start + 1;
            proof {
                assert(self@ =~= old(self)@.drop_first());
            }
            r
        }
    }

    /// Yield the backmost remaining element, or `None` once the iterator
    /// is exhausted — an ordinary outcome, not an error.
    pub fn next_back(&mut self) -> (r: Option<T>)
        requires
            old(self).wf(),
        ensures
            final(self).wf(),
            final(self).spec_capacity() == old(self).spec_capacity(),
            old(self)@.len() == 0 ==> r is None && final(self)@ == old(self)@,
            old(self)@.len() > 0 ==> r == Some(old(self)@.last()) && final(self)@ == old(
                self,
            )@.drop_last(),
    {
        if self.start == self.end {
            None
        } else {
            self.end = self.end - 1;
            let i = self.end;
            let r = self.buf[i].take();
            proof {
                assert(self@ =~= old(self)@.drop_last());
            }
            r
        }
    }

    /// How many elements remain, as an exact lower and upper bound.
    pub fn size_hint(&self) -> (r: (usize, Option<usize>))
        requires
            self.wf(),
        ensures
            r.0 == self@.len(),
            r.1 == Some(r.0),
    {
        let n = self.end - self.start;
        (n, Some(n))
    }
}

} // verus!
