use non_empty_vec::{DrainFilter, NonEmpty};
use std::cell::Cell;
use std::rc::Rc;

fn ne_vec<T>(items: Vec<T>) -> NonEmpty<T> {
    NonEmpty::new_unchecked(items)
}

fn forward<T, F: FnMut(&mut T) -> bool>(mut cursor: DrainFilter<'_, T, F>) -> Vec<T> {
    let mut removed = Vec::new();
    while let Some(item) = cursor.next() {
        removed.push(item);
    }
    removed
}

fn backward<T, F: FnMut(&mut T) -> bool>(mut cursor: DrainFilter<'_, T, F>) -> Vec<T> {
    let mut removed = Vec::new();
    while let Some(item) = cursor.next_back() {
        removed.push(item);
    }
    removed
}

/// Counts how often its values are dropped.
struct Counted {
    value: i32,
    drops: Rc<Cell<usize>>,
}

impl Drop for Counted {
    fn drop(&mut self) {
        self.drops.set(self.drops.get() + 1);
    }
}

fn counted(values: &[i32], drops: &Rc<Cell<usize>>) -> NonEmpty<Counted> {
    let items: Vec<Counted> = values
        .iter()
        .map(|value| Counted { value: *value, drops: drops.clone() })
        .collect();
    NonEmpty::new_unchecked(items)
}

#[test]
fn drain_filter() {
    // Filter out odd numbers.
    let mut v = ne_vec(vec![1, 2, 3, 4, 5, 6]);
    assert_eq!(forward(v.drain_filter(|val| *val % 2 == 1)), [1, 3, 5]);
    assert_eq!(v, ne_vec(vec![2, 4, 6]));

    // singleton
    let mut v = ne_vec(vec![1]);
    for _ in forward(v.drain_filter(|_| unreachable!())) {}
    assert_eq!(v, ne_vec(vec![1]));

    // leftover
    let mut v = ne_vec(vec![1, 2, 3]);
    let removed = forward(v.drain_filter(|&mut val| if val < 3 { true } else { unreachable!() }));
    assert_eq!(removed, [1, 2]);
    assert_eq!(v, ne_vec(vec![3]));

    // double-ended, meet in middle
    let mut v = ne_vec(vec![1, 2, 3, 4, 5, 6]);
    let mut rem = v.drain_filter(|val| *val % 2 == 1);
    assert_eq!(rem.next(), Some(1));
    assert_eq!(rem.next_back(), Some(5));
    assert_eq!(rem.next_back(), Some(3));
    assert_eq!(rem.next(), None);
    assert_eq!(rem.next_back(), None);

    // rev
    let mut v = ne_vec(vec![1, 2, 3, 4, 5, 6]);
    let rem = backward(v.drain_filter(|val| *val % 2 == 0));
    assert_eq!(rem, [6, 4, 2]);
    assert_eq!(v, ne_vec(vec![1, 3, 5]));

    // singleton-back
    let mut v = ne_vec(vec![1]);
    for _ in backward(v.drain_filter(|_| unreachable!())) {}
    assert_eq!(v, ne_vec(vec![1]));

    // leftover-back
    let mut v = ne_vec(vec![1, 2, 3]);
    let removed = backward(v.drain_filter(|&mut val| if val > 1 { true } else { unreachable!() }));
    assert_eq!(removed, [3, 2]);
    assert_eq!(v, ne_vec(vec![1]));

    // meet in middle, unreachable
    let mut v = ne_vec(vec![1, 2, 3]);
    let mut rem = v.drain_filter(|&mut val| if val == 2 { unreachable!() } else { true });
    assert_eq!(rem.next_back(), Some(3));
    assert_eq!(rem.next(), Some(1));
    assert_eq!(rem.next_back(), None);
    assert_eq!(rem.next(), None);
    std::mem::drop(rem);
    assert_eq!(v, ne_vec(vec![2]));
}

#[test]
fn drain_filter_is_lazy() {
    // Nothing gets removed until the cursor is driven
    let mut v = ne_vec(vec![1, 2, 3, 4]);
    let _ = v.drain_filter(|_| true);
    assert_eq!(v, ne_vec(vec![1, 2, 3, 4]));
}

#[test]
fn drain_filter_odd_values() {
    let mut v = ne_vec(vec![1, 2, 3, 4, 5, 6]);
    let mut cursor = v.drain_filter(|i| *i % 2 == 1);
    assert_eq!(cursor.next(), Some(1));
    assert_eq!(cursor.next(), Some(3));
    assert_eq!(cursor.next(), Some(5));
    assert_eq!(cursor.next(), None);
    assert_eq!(cursor.next(), None);
    cursor.finish();
    assert_eq!(v, ne_vec(vec![2, 4, 6]));
}

#[test]
fn drain_filter_singleton_is_never_tested() {
    let mut calls = 0;
    let mut v = ne_vec(vec![1]);
    let mut cursor = v.drain_filter(|_| {
        calls += 1;
        true
    });
    assert_eq!(cursor.size_hint(), (0, Some(0)));
    assert_eq!(cursor.next(), None);
    assert_eq!(cursor.next_back(), None);
    cursor.finish();
    assert_eq!(calls, 0);
    assert_eq!(v, ne_vec(vec![1]));
}

#[test]
fn drain_filter_all_but_last() {
    let mut seen = Vec::new();
    let mut v = ne_vec(vec![1, 2, 3, 4, 5]);
    let removed = forward(v.drain_filter(|i| {
        seen.push(*i);
        *i < 5
    }));
    assert_eq!(removed, [1, 2, 3, 4]);
    assert_eq!(v, ne_vec(vec![5]));
    assert_eq!(seen, [1, 2, 3, 4]);
}

#[test]
fn drain_filter_from_both_ends() {
    let mut v = ne_vec(vec![1, 2, 3, 4, 5, 6]);
    let mut cursor = v.drain_filter(|i| *i % 2 == 1);
    let mut removed = Vec::new();
    removed.extend(cursor.next_back());
    removed.extend(cursor.next());
    removed.extend(cursor.next_back());
    removed.extend(cursor.next());
    removed.extend(cursor.next_back());
    cursor.finish();
    removed.sort();
    assert_eq!(removed, [1, 3, 5]);
    assert_eq!(v, ne_vec(vec![2, 4, 6]));

    let mut v = ne_vec(vec![1, 2, 3, 4, 5, 6]);
    let mut cursor = v.drain_filter(|i| *i % 2 == 1);
    assert_eq!(cursor.next(), Some(1));
    assert_eq!(cursor.next(), Some(3));
    assert_eq!(cursor.next_back(), Some(5));
    assert_eq!(cursor.next_back(), None);
    assert_eq!(cursor.next(), None);
    cursor.finish();
    assert_eq!(v, ne_vec(vec![2, 4, 6]));
}

#[test]
fn drain_filter_reversed() {
    let mut v = ne_vec(vec![1, 2, 3, 4, 5, 6]);
    let removed = backward(v.drain_filter(|i| *i % 2 == 0));
    assert_eq!(removed, [6, 4, 2]);
    assert_eq!(v, ne_vec(vec![1, 3, 5]));
}

#[test]
fn drain_filter_keeps_what_the_predicate_changed() {
    let mut v = ne_vec(vec![1, 2, 3, 4, 5]);
    let removed = forward(v.drain_filter(|i| {
        *i *= 10;
        *i == 30
    }));
    assert_eq!(removed, [30]);
    assert_eq!(v, ne_vec(vec![10, 20, 40, 5]));

    let mut v = ne_vec(vec![1, 2, 3, 4, 5]);
    let removed = backward(v.drain_filter(|i| {
        *i *= 10;
        *i == 30
    }));
    assert_eq!(removed, [30]);
    assert_eq!(v, ne_vec(vec![1, 20, 40, 50]));
}

#[test]
fn drain_filter_size_hint() {
    let mut v = ne_vec(vec![1, 2, 3, 4, 5, 6]);
    let mut cursor = v.drain_filter(|i| *i % 2 == 1);
    assert_eq!(cursor.size_hint(), (0, Some(5)));
    assert_eq!(cursor.next(), Some(1));
    assert_eq!(cursor.size_hint(), (0, Some(4)));
    assert_eq!(cursor.next_back(), Some(5));
    assert_eq!(cursor.size_hint(), (0, Some(2)));
    assert_eq!(cursor.next(), Some(3));
    assert_eq!(cursor.size_hint(), (0, Some(0)));
    assert_eq!(cursor.next(), None);
    assert_eq!(cursor.size_hint(), (0, Some(0)));
}

#[test]
fn abandoned_cursor_leaves_a_valid_vector() {
    let drops = Rc::new(Cell::new(0));
    let mut v = counted(&[1, 2, 3], &drops);
    {
        let mut cursor = v.drain_filter(|_| true);
        let first = cursor.next().unwrap();
        assert_eq!(first.value, 1);
        assert_eq!(drops.get(), 0);
        // the cursor is let go before it has tested all that it may test
    }
    assert_eq!(drops.get(), 1);
    assert_eq!(v.len(), 2);
    assert_eq!(v.first().value, 2);
    assert_eq!(v.last().value, 3);
    drop(v);
    assert_eq!(drops.get(), 3);
}

#[test]
fn exhausted_cursor_leaves_exactly_one() {
    let drops = Rc::new(Cell::new(0));
    let mut v = counted(&[1, 2, 3], &drops);
    {
        let mut cursor = v.drain_filter(|_| true);
        assert_eq!(cursor.next().unwrap().value, 1);
        assert_eq!(cursor.next().unwrap().value, 2);
        assert_eq!(drops.get(), 2);
        assert!(cursor.next().is_none());
        assert!(cursor.next_back().is_none());
    }
    assert_eq!(drops.get(), 2);
    assert_eq!(v.len(), 1);
    assert_eq!(v.first().value, 3);
    drop(v);
    assert_eq!(drops.get(), 3);
}

#[test]
fn abandoned_cursor_keeps_settled_elements() {
    let drops = Rc::new(Cell::new(0));
    let mut v = counted(&[1, 2, 3, 4, 5, 6, 7], &drops);
    {
        let mut cursor = v.drain_filter(|item| item.value % 2 == 0);
        assert_eq!(cursor.next().unwrap().value, 2);
        assert_eq!(cursor.next_back().unwrap().value, 6);
        assert_eq!(drops.get(), 2);
    }
    let left: Vec<i32> = v.iter().map(|item| item.value).collect();
    assert_eq!(left, [1, 3, 4, 5, 7]);
    drop(v);
    assert_eq!(drops.get(), 7);
}

#[test]
fn new_is_what_drain_filter_makes() {
    let mut v = ne_vec(vec![1, 2, 3, 4]);
    let mut cursor = DrainFilter::new(&mut v, |i: &mut i32| *i > 2);
    assert_eq!(cursor.size_hint(), (0, Some(3)));
    assert_eq!(cursor.next(), Some(3));
    assert_eq!(cursor.next(), None);
    cursor.finish();
    assert_eq!(v, ne_vec(vec![1, 2, 4]));
}
