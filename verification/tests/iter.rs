use josievec::josie_vec::josievec_extend::ElementSource;
use josievec::josie_vec::JosieVec;
use std::cell::Cell;
use std::rc::Rc;

struct Counted {
    id: usize,
    drops: Rc<Cell<usize>>,
}

impl Drop for Counted {
    fn drop(&mut self) {
        self.drops.set(self.drops.get() + 1);
    }
}

fn counted(n: usize, drops: &Rc<Cell<usize>>) -> JosieVec<Counted> {
    let mut josievec = JosieVec::new();
    for id in 0..n {
        josievec.push(Counted { id, drops: drops.clone() });
    }
    josievec
}

fn numbers(n: i32) -> JosieVec<i32> {
    let mut josievec = JosieVec::new();
    for i in 1..=n {
        josievec.push(i);
    }
    josievec
}

#[test]
fn iter_walks_front_to_back() {
    let josievec = numbers(3);
    let mut iter = josievec.iter();
    assert_eq!(iter.size_hint(), (3, Some(3)));
    assert_eq!(iter.next(), Some(&1));
    assert_eq!(iter.size_hint(), (2, Some(2)));
    assert_eq!(iter.next(), Some(&2));
    assert_eq!(iter.next(), Some(&3));
    assert_eq!(iter.size_hint(), (0, Some(0)));
    assert_eq!(iter.next(), None);
    assert_eq!(iter.next(), None);
    assert_eq!(josievec.len(), 3);
    assert_eq!(josievec.capacity(), 4);
}

#[test]
fn iter_over_nothing() {
    let josievec: JosieVec<i32> = JosieVec::with_capacity(4);
    let mut iter = josievec.iter();
    assert_eq!(iter.size_hint(), (0, Some(0)));
    assert_eq!(iter.next(), None);
}

#[test]
fn iter_mut_writes_through() {
    let mut josievec = numbers(4);
    let mut iter = josievec.iter_mut();
    assert_eq!(iter.size_hint(), (4, Some(4)));
    let first = iter.next().unwrap();
    let second = iter.next().unwrap();
    assert_eq!(iter.size_hint(), (2, Some(2)));
    *first += *second;
    *second = 0;
    while let Some(element) = iter.next() {
        *element *= 10;
    }
    assert_eq!(iter.next(), None);
    let after: Vec<i32> = josievec.as_slice().into_iter().copied().collect();
    assert_eq!(after, vec![3, 0, 30, 40]);
    assert_eq!(josievec.capacity(), 4);
}

#[test]
fn iter_mut_averages_neighbours_in_place() {
    let mut josievec = numbers(4);
    {
        let mut iter = josievec.iter_mut();
        let mut current = iter.next();
        while let Some(element) = current {
            let next = iter.next();
            if let Some(following) = &next {
                *element = (*element + **following) / 2;
            }
            current = next;
        }
    }
    let after: Vec<i32> = josievec.as_slice().into_iter().copied().collect();
    assert_eq!(after, vec![1, 2, 3, 4]);
}

#[test]
fn into_iter_yields_by_value() {
    let josievec = numbers(3);
    let mut iter = josievec.into_iter();
    assert_eq!(iter.size_hint(), (3, Some(3)));
    assert_eq!(iter.next(), Some(1));
    assert_eq!(iter.size_hint(), (3, Some(3)));
    assert_eq!(iter.next(), Some(2));
    assert_eq!(iter.next(), Some(3));
    assert_eq!(iter.next(), None);
    assert_eq!(iter.next(), None);
}

#[test]
fn into_iter_consumed_drops_each_element_once() {
    let drops = Rc::new(Cell::new(0));
    let josievec = counted(4, &drops);
    let mut iter = josievec.into_iter();
    let mut ids = Vec::new();
    while let Some(element) = iter.next() {
        ids.push(element.id);
    }
    assert_eq!(ids, vec![0, 1, 2, 3]);
    assert_eq!(drops.get(), 4);
    drop(iter);
    assert_eq!(drops.get(), 4);
}

#[test]
fn into_iter_dropped_early_drops_the_rest_once() {
    let drops = Rc::new(Cell::new(0));
    let josievec = counted(5, &drops);
    let mut iter = josievec.into_iter();
    let first = iter.next().unwrap();
    let second = iter.next().unwrap();
    assert_eq!(drops.get(), 0);
    drop(iter);
    assert_eq!(drops.get(), 3);
    drop(first);
    drop(second);
    assert_eq!(drops.get(), 5);
}

#[test]
fn into_iter_is_a_source() {
    let josievec = numbers(5);
    let mut iter = josievec.into_iter();
    assert_eq!(iter.next(), Some(1));
    assert_eq!(ElementSource::size_hint(&iter), (5, Some(5)));
    let mut collected: JosieVec<i32> = JosieVec::new();
    collected.push(0);
    collected.extend(&mut iter);
    let after: Vec<i32> = collected.as_slice().into_iter().copied().collect();
    assert_eq!(after, vec![0, 2, 3, 4, 5]);
    assert_eq!(collected.capacity(), 8);
    assert_eq!(iter.next(), None);
}

#[test]
fn into_iter_nested() {
    let mut outer: JosieVec<JosieVec<&str>> = JosieVec::new();
    for _ in 0..3 {
        let mut inner = JosieVec::new();
        inner.push("with commas");
        inner.push("macroed");
        outer.push(inner);
    }
    let mut seen = Vec::new();
    let mut outer_iter = outer.into_iter();
    while let Some(inner) = outer_iter.next() {
        let mut inner_iter = inner.into_iter();
        while let Some(text) = inner_iter.next() {
            seen.push(text);
        }
    }
    assert_eq!(seen.len(), 6);
    assert_eq!(seen[1], "macroed");
}

#[test]
fn mutate_nested_clones() {
    let mut josievec: JosieVec<String> = JosieVec::new();
    josievec.push("josievec".to_string());
    let mut nested: JosieVec<JosieVec<String>> = JosieVec::new();
    for _ in 0..5 {
        nested.push(josievec.clone());
    }
    {
        let mut iter = nested.iter_mut();
        let mut i = 0;
        while let Some(inner) = iter.next() {
            inner.push(format!("number {}", i));
            i += 1;
        }
    }
    let mut iter = nested.iter();
    let mut i = 0;
    while let Some(inner) = iter.next() {
        let texts: Vec<String> = inner.as_slice().into_iter().cloned().collect();
        assert_eq!(texts, vec!["josievec".to_string(), format!("number {}", i)]);
        i += 1;
    }
    assert_eq!(i, 5);
    assert_eq!(josievec.len(), 1);
}
