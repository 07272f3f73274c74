use josievec::josie_vec::josievec_extend::{
    extend_strategy, ElementSource, ExtendStrategy, ExtendType, JosieVecGuard,
};
use josievec::josie_vec::JosieVec;

/// A source that reports whatever hint it is given and yields the items of a
/// vector.
struct Source<T> {
    items: std::vec::IntoIter<T>,
    hint: (usize, Option<usize>),
    pulls: usize,
}

impl<T> Source<T> {
    fn new(items: Vec<T>, hint: (usize, Option<usize>)) -> Self {
        Source { items: items.into_iter(), hint, pulls: 0 }
    }
}

impl<T> ElementSource<T> for Source<T> {
    fn size_hint(&self) -> (usize, Option<usize>) {
        self.hint
    }

    fn next(&mut self) -> Option<T> {
        self.pulls += 1;
        self.items.next()
    }
}

fn contents<T: Clone>(josievec: &JosieVec<T>) -> Vec<T> {
    josievec.as_slice().into_iter().cloned().collect()
}

#[test]
fn strategy_for_each_hint() {
    assert_eq!(extend_strategy(0, Some(0)), ExtendStrategy::Nothing);
    assert_eq!(extend_strategy(5, Some(0)), ExtendStrategy::Nothing);
    assert_eq!(extend_strategy(6, Some(6)), ExtendStrategy::Exact(6));
    assert_eq!(extend_strategy(2, Some(6)), ExtendStrategy::Staged(2, 4));
    assert_eq!(extend_strategy(0, Some(3)), ExtendStrategy::Staged(0, 3));
    assert_eq!(extend_strategy(0, None), ExtendStrategy::Unbounded);
    assert_eq!(extend_strategy(4, None), ExtendStrategy::ExactThenUnbounded(4));
}

#[test]
fn extend_with_exact_hint_reserves_once() {
    let mut josievec: JosieVec<&str> = JosieVec::new();
    josievec.extend(&mut Source::new(vec!["test"; 6], (6, Some(6))));
    assert_eq!(josievec.len(), 6);
    assert_eq!(josievec.capacity(), 8);
    assert_eq!(contents(&josievec), vec!["test"; 6]);
}

#[test]
fn extend_with_exact_hint_pulls_no_more_than_the_bound() {
    let mut josievec: JosieVec<i32> = JosieVec::new();
    josievec.push(0);
    let mut source = Source::new(vec![1, 2, 3, 4, 5], (3, Some(3)));
    josievec.extend(&mut source);
    assert_eq!(contents(&josievec), vec![0, 1, 2, 3]);
    assert_eq!(josievec.capacity(), 4);
    assert_eq!(source.pulls, 3);
    assert_eq!(source.next(), Some(4));
}

#[test]
fn extend_with_exact_hint_and_a_short_source_keeps_what_came() {
    let mut josievec: JosieVec<i32> = JosieVec::new();
    josievec.extend(&mut Source::new(vec![1, 2, 3, 4, 5, 6, 7], (10, Some(10))));
    assert_eq!(josievec.len(), 7);
    assert_eq!(josievec.capacity(), 16);
    assert_eq!(contents(&josievec), vec![1, 2, 3, 4, 5, 6, 7]);
}

#[test]
fn extend_with_upper_bound_zero_does_nothing() {
    let mut josievec: JosieVec<i32> = JosieVec::new();
    josievec.extend(&mut Source::new(vec![1, 2, 3], (0, Some(0))));
    assert_eq!(josievec.len(), 0);
    assert_eq!(josievec.capacity(), 0);
}

#[test]
fn extend_in_two_stages() {
    let mut josievec: JosieVec<i32> = JosieVec::new();
    josievec.extend(&mut Source::new(vec![1, 2, 3, 4, 5], (2, Some(5))));
    assert_eq!(contents(&josievec), vec![1, 2, 3, 4, 5]);
    assert_eq!(josievec.capacity(), 8);
    let mut short: JosieVec<i32> = JosieVec::new();
    short.extend(&mut Source::new(vec![1, 2, 3], (2, Some(9))));
    assert_eq!(contents(&short), vec![1, 2, 3]);
    assert_eq!(short.capacity(), 16);
}

#[test]
fn extend_unbounded_grows_by_doubling() {
    let mut josievec: JosieVec<&str> = JosieVec::new();
    josievec.extend(&mut Source::new(vec!["test"; 6], (0, None)));
    assert_eq!(josievec.len(), 6);
    assert_eq!(josievec.capacity(), 8);
    let mut full: JosieVec<i32> = JosieVec::new();
    full.extend(&mut Source::new(vec![1, 2, 3, 4], (0, None)));
    assert_eq!(contents(&full), vec![1, 2, 3, 4]);
    assert_eq!(full.capacity(), 8);
    let mut none: JosieVec<i32> = JosieVec::new();
    none.extend(&mut Source::new(Vec::new(), (0, None)));
    assert_eq!(none.len(), 0);
    assert_eq!(none.capacity(), 1);
}

#[test]
fn extend_unbounded_cut_short_after_seven_pulls() {
    let mut josievec: JosieVec<i32> = JosieVec::new();
    josievec.extend(&mut Source::new(vec![10; 7], (0, None)));
    assert_eq!(josievec.len(), 7);
    assert_eq!(josievec.capacity(), 8);
    assert_eq!(contents(&josievec), vec![10; 7]);
}

#[test]
fn extend_with_lower_bound_only() {
    let mut josievec: JosieVec<i32> = JosieVec::new();
    josievec.extend(&mut Source::new(vec![1, 2, 3, 4, 5, 6], (3, None)));
    assert_eq!(contents(&josievec), vec![1, 2, 3, 4, 5, 6]);
    assert_eq!(josievec.capacity(), 8);
}

#[test]
fn extend_appends_behind_what_is_there() {
    let mut josievec: JosieVec<&str> = JosieVec::new();
    josievec.reserve_exact(9);
    josievec.extend(&mut Source::new(vec!["1", "2", "3"], (3, Some(3))));
    assert_eq!(josievec.capacity(), 9);
    josievec.extend(&mut Source::new(vec!["4"], (0, None)));
    assert_eq!(contents(&josievec), vec!["1", "2", "3", "4"]);
    assert_eq!(josievec.capacity(), 9);
}

#[test]
fn from_iter_collects_a_source() {
    let josievec = JosieVec::from_iter(&mut Source::new(vec![1, 2, 3, 4, 5, 6, 7, 8], (8, Some(8))));
    assert_eq!(contents(&josievec), vec![1, 2, 3, 4, 5, 6, 7, 8]);
    assert_eq!(josievec.capacity(), 8);
}

#[test]
fn guard_release_sets_the_length_from_the_cursor() {
    let mut josievec: JosieVec<i32> = JosieVec::with_capacity(10);
    josievec.push(0);
    let mut guard = JosieVecGuard::arm(&mut josievec);
    assert_eq!(guard.remaining(), 9);
    for i in 1..=7 {
        guard.write(i);
    }
    assert_eq!(guard.remaining(), 2);
    guard.release();
    assert_eq!(josievec.len(), 8);
    assert_eq!(contents(&josievec), vec![0, 1, 2, 3, 4, 5, 6, 7]);
}

#[test]
fn guard_commit_leaves_the_length_to_the_caller() {
    let mut josievec: JosieVec<i32> = JosieVec::with_capacity(4);
    let mut guard = JosieVecGuard::arm(&mut josievec);
    guard.write(1);
    guard.write(2);
    guard.commit();
    assert_eq!(josievec.len(), 0);
    josievec.set_len(2);
    assert_eq!(contents(&josievec), vec![1, 2]);
}

#[test]
fn guard_fill_stops_at_the_limit_or_the_end() {
    let mut josievec: JosieVec<i32> = JosieVec::with_capacity(8);
    let mut source = Source::new(vec![1, 2, 3, 4, 5], (0, None));
    let mut guard = JosieVecGuard::arm(&mut josievec);
    assert!(!guard.fill(2, &mut source));
    assert_eq!(source.pulls, 2);
    assert!(guard.fill(6, &mut source));
    guard.release();
    assert_eq!(contents(&josievec), vec![1, 2, 3, 4, 5]);
}

#[test]
fn bulk_extend_guarded_counts_what_the_writer_wrote() {
    let mut josievec: JosieVec<usize> = JosieVec::new();
    josievec.bulk_extend_guarded(ExtendType::Exact(10), |guard, elems| {
        assert_eq!(elems, 10);
        for i in 0..7 {
            guard.write(i);
        }
    });
    assert_eq!(josievec.len(), 7);
    assert_eq!(josievec.capacity(), 16);
    assert_eq!(contents(&josievec), vec![0, 1, 2, 3, 4, 5, 6]);
}

#[test]
fn bulk_extend_guarded_amortized_offers_what_is_spare() {
    let mut josievec: JosieVec<usize> = JosieVec::new();
    josievec.bulk_extend_guarded(ExtendType::Ammortized, |guard, elems| {
        assert_eq!(elems, 1);
        guard.write(1);
    });
    josievec.bulk_extend_guarded(ExtendType::Ammortized, |guard, elems| {
        assert_eq!(elems, 1);
        guard.write(2);
    });
    josievec.reserve(4);
    josievec.bulk_extend_guarded(ExtendType::Ammortized, |guard, elems| {
        assert_eq!(elems, 6);
        while guard.remaining() > 0 {
            guard.write(0);
        }
    });
    assert_eq!(josievec.len(), 8);
    assert_eq!(josievec.capacity(), 8);
}

#[test]
fn fibonacci_through_the_guard() {
    let mut josievec: JosieVec<usize> = JosieVec::new();
    for _ in 0..2 {
        josievec.bulk_extend_guarded(ExtendType::Exact(15), |guard, elems| {
            let (mut a, mut b) = (0usize, 1usize);
            for _ in 0..elems {
                guard.write(a);
                let next = a + b;
                a = b;
                b = next;
            }
        });
    }
    assert_eq!(josievec.len(), 30);
    assert_eq!(josievec.capacity(), 32);
    let fib = vec![0, 1, 1, 2, 3, 5, 8, 13, 21, 34, 55, 89, 144, 233, 377];
    let all = contents(&josievec);
    assert_eq!(&all[..15], &fib[..]);
    assert_eq!(&all[15..], &fib[..]);
    assert_eq!(josievec.pop(), Some(377));
    assert_eq!(josievec.remove(3), 2);
    assert_eq!(josievec.len(), 28);
}
