//! A single-slot heap cell: the simpler analog of the sequence container.
//! It owns exactly one heap-allocated value, gives read and write access to
//! it, and releases the allocation when dropped.

use vstd::prelude::*;

verus! {

/// A heap cell holding exactly one value. Its view is that value.
pub struct Cell<T> {
    data: Box<T>,
}

impl<T> View for Cell<T> {
    type V = T;

    closed spec fn view(&self) -> T {
        *self.data
    }
}

impl<T> Cell<T> {
    /// Create a new cell holding the given value.
    pub fn new(value: T) -> (c: Cell<T>)
        ensures
            c@ == value,
    {
        Cell { data: Box::new(value) }
    }

    /// A reference to the value in the cell.
    pub fn as_ref(&self) -> (r: &T)
        ensures
            *r == self@,
    {
        &self.data
    }

    /// A mutable reference to the value in the cell: the cell afterwards
    /// holds whatever the caller wrote through the reference.
    pub fn as_mut(&mut self) -> (r: &mut T)
        ensures
            *r == old(self)@,
            final(self)@ == *final(r),
    {
        &mut self.data
    }

    /// Take the value out of the cell, consuming the cell.
    pub fn take(self) -> (r: T)
        ensures
            r == self@,
    {
        *self.data
    }
}

} // verus!
