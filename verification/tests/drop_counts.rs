use std::cell::RefCell;
use std::rc::Rc;

use growvec::Cell;
use growvec::Vec;

/// An element that counts how often it is dropped, to check that every
/// still-live element is destroyed exactly once, wherever its owner stops.
struct Probe {
    drops: Rc<RefCell<usize>>,
}

impl Drop for Probe {
    fn drop(&mut self) {
        *self.drops.borrow_mut() += 1;
    }
}

fn probes(n: usize) -> (Rc<RefCell<usize>>, Vec<Probe>) {
    let drops = Rc::new(RefCell::new(0));
    let mut v: Vec<Probe> = Vec::new();
    for _ in 0..n {
        v.push(Probe { drops: Rc::clone(&drops) });
    }
    (drops, v)
}

#[test]
fn untouched_container_drops_each_element_once() {
    let (drops, v) = probes(6);
    assert_eq!(*drops.borrow(), 0);
    drop(v);
    assert_eq!(*drops.borrow(), 6);
}

#[test]
fn partially_popped_container_drops_each_element_once() {
    let (drops, mut v) = probes(6);
    let taken = v.pop();
    assert_eq!(*drops.borrow(), 0);
    drop(taken);
    assert_eq!(*drops.borrow(), 1);
    drop(v);
    assert_eq!(*drops.borrow(), 6);
}

#[test]
fn partially_consumed_iterator_drops_each_element_once() {
    let (drops, v) = probes(6);
    let mut it = v.into_iter();
    drop(it.next());
    drop(it.next_back());
    assert_eq!(*drops.borrow(), 2);
    drop(it);
    assert_eq!(*drops.borrow(), 6);
}

#[test]
fn fully_consumed_iterator_drops_each_element_once() {
    let (drops, v) = probes(4);
    let mut it = v.into_iter();
    while let Some(p) = it.next() {
        drop(p);
    }
    assert_eq!(*drops.borrow(), 4);
    drop(it);
    assert_eq!(*drops.borrow(), 4);
}

#[test]
fn cell_drops_its_value_once() {
    let drops = Rc::new(RefCell::new(0));
    let c = Cell::new(Probe { drops: Rc::clone(&drops) });
    assert_eq!(*drops.borrow(), 0);
    drop(c);
    assert_eq!(*drops.borrow(), 1);

    let taken = Cell::new(Probe { drops: Rc::clone(&drops) }).take();
    assert_eq!(*drops.borrow(), 1);
    drop(taken);
    assert_eq!(*drops.borrow(), 2);
}
