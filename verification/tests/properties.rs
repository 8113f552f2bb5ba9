use growvec::Vec;

#[test]
fn push_count_and_reverse_pop_order() {
    let mut v: Vec<i64> = Vec::new();
    for i in 0..50_i64 {
        v.push(i * i);
    }
    assert_eq!(v.length(), 50);
    for i in (0..50_i64).rev() {
        assert_eq!(v.pop(), Some(i * i));
    }
    assert_eq!(v.pop(), None);
    assert_eq!(v.length(), 0);
}

#[test]
fn three_pushes_pop_in_reverse() {
    let mut v: Vec<&str> = Vec::new();
    v.push("a");
    v.push("b");
    v.push("c");
    assert_eq!(v.pop(), Some("c"));
    assert_eq!(v.pop(), Some("b"));
    assert_eq!(v.pop(), Some("a"));
    assert_eq!(v.pop(), None);
}

#[test]
fn insert_keeps_order_and_grows_length_by_one() {
    let mut v: Vec<i64> = Vec::new();
    v.push(10);
    v.push(20);
    v.push(30);
    v.push(40);
    v.insert(2, 25);
    assert_eq!(v.length(), 5);
    assert_eq!(*v.get(0), 10);
    assert_eq!(*v.get(1), 20);
    assert_eq!(*v.get(2), 25);
    assert_eq!(*v.get(3), 30);
    assert_eq!(*v.get(4), 40);
}

#[test]
fn insert_at_length_is_push() {
    let mut a: Vec<i64> = Vec::new();
    let mut b: Vec<i64> = Vec::new();
    for i in 0..5_i64 {
        a.insert(a.length(), i + 100);
        b.push(i + 100);
    }
    assert_eq!(a.length(), b.length());
    for i in 0..5 {
        assert_eq!(*a.get(i), *b.get(i));
    }
}

#[test]
fn remove_keeps_order_and_shrinks_length_by_one() {
    let values: [i64; 10] = [7, 1, 1, 2, 7, 3, 5, 8, 13, 7];
    let mut v: Vec<i64> = Vec::new();
    for x in values {
        v.push(x);
    }
    assert_eq!(v.remove(9), 7);
    assert_eq!(v.length(), 9);
    assert_eq!(v.remove(4), 7);
    assert_eq!(v.length(), 8);
    assert_eq!(v.remove(0), 7);
    assert_eq!(v.length(), 7);
    let left: [i64; 7] = [1, 1, 2, 3, 5, 8, 13];
    for i in 0..7 {
        assert_eq!(*v.get(i), left[i]);
    }
}

#[test]
fn pop_on_empty_is_idempotent() {
    let mut v: Vec<i64> = Vec::new();
    v.push(4);
    assert_eq!(v.pop(), Some(4));
    for _ in 0..5 {
        assert_eq!(v.pop(), None);
        assert_eq!(v.length(), 0);
    }
}

#[test]
fn exhausted_iterator_is_idempotent() {
    let mut v: Vec<i64> = Vec::new();
    v.push(1);
    v.push(2);
    let mut it = v.into_iter();
    assert_eq!(it.next(), Some(1));
    assert_eq!(it.next_back(), Some(2));
    for _ in 0..5 {
        assert_eq!(it.next(), None);
        assert_eq!(it.next_back(), None);
        assert_eq!(it.size_hint(), (0, Some(0)));
    }
}

#[test]
fn iterator_yields_each_element_exactly_once() {
    let mut v: Vec<i64> = Vec::new();
    for i in 0..7_i64 {
        v.push(i);
    }
    let mut it = v.into_iter();
    let mut count = 0;
    let mut sum = 0;
    while let Some(x) = it.next() {
        count += 1;
        sum += x;
    }
    assert_eq!(count, 7);
    assert_eq!(sum, 0 + 1 + 2 + 3 + 4 + 5 + 6);
}

#[test]
fn size_hint_tracks_remaining() {
    let mut v: Vec<i64> = Vec::new();
    for i in 0..4_i64 {
        v.push(i);
    }
    let mut it = v.into_iter();
    assert_eq!(it.size_hint(), (4, Some(4)));
    it.next();
    assert_eq!(it.size_hint(), (3, Some(3)));
    it.next_back();
    assert_eq!(it.size_hint(), (2, Some(2)));
}

#[test]
fn capacity_doubles_on_growth() {
    let mut v: Vec<i64> = Vec::new();
    assert_eq!(v.capacity(), 0);
    v.push(1);
    assert_eq!(v.capacity(), 1);
    v.push(2);
    assert_eq!(v.capacity(), 2);
    v.push(3);
    assert_eq!(v.capacity(), 4);
    v.push(4);
    assert_eq!(v.capacity(), 4);
    v.push(5);
    assert_eq!(v.capacity(), 8);
    // Capacity never shrinks while the container lives.
    while v.pop().is_some() {}
    assert_eq!(v.capacity(), 8);
}
