use rust_radio::io::BufferedSource;
use rust_radio::types::even_odd_iter::EvenOddIter;
use rust_radio::types::even_odd_slice;

fn drain<'a>(mut it: EvenOddIter<'a, u32>) -> Vec<u32> {
    let mut out = vec![];
    while let Some(x) = it.next() {
        out.push(*x);
    }
    out
}

#[test]
fn even_and_odd_split_the_items() {
    let items: Vec<u32> = (0..8).collect();
    let all = EvenOddIter::from(&items);
    assert_eq!(all.len(), 8);
    assert_eq!(drain(all.even()), vec![0, 2, 4, 6]);
    assert_eq!(drain(all.odd()), vec![1, 3, 5, 7]);
    assert_eq!(drain(all.even().odd()), vec![2, 6]);
    assert_eq!(drain(all.odd().odd()), vec![3, 7]);
    assert_eq!(all.even().len(), 4);
    assert_eq!(all.odd().even().len(), 2);
    assert_eq!(drain(EvenOddIter::from(&items)), items);
}

#[test]
fn even_odd_slice_splits_the_items() {
    let items = [10u8, 11, 12, 13, 14];
    let s = even_odd_slice::new(&items);
    let mut even = s.even();
    let mut got = vec![];
    while let Some(x) = even.next() {
        got.push(*x);
    }
    assert_eq!(got, vec![10, 12, 14]);
    let mut odd = s.odd();
    assert_eq!(odd.next(), Some(&11));
    assert_eq!(odd.next(), Some(&13));
    assert_eq!(odd.next(), None);
    assert_eq!(odd.next(), None);
    assert_eq!(s.len(), 5);
    assert_eq!(s.odd().len(), 2);
}

#[test]
fn buffered_source_numbers_samples_consecutively() {
    let mut src: BufferedSource<i16> = BufferedSource::new().unwrap();
    assert!(src.needs_samples());
    assert_eq!(src.next_sample(), None);
    src.load(vec![5, -3, 7]);
    assert!(!src.needs_samples());
    assert_eq!(src.next_sample(), Some((5, 0)));
    assert_eq!(src.next_sample(), Some((-3, 1)));
    assert_eq!(src.next_sample(), Some((7, 2)));
    assert!(src.needs_samples());
    assert_eq!(src.next_sample(), None);
    src.load(vec![9]);
    assert_eq!(src.next_sample(), Some((9, 3)));
}

#[test]
fn buffered_source_indices_continue_across_refills() {
    let mut src: BufferedSource<u8> = BufferedSource::new().unwrap();
    let blocks: Vec<Vec<u8>> = vec![vec![1, 2], vec![3], vec![4, 5, 6]];
    let mut seen = vec![];
    for b in blocks {
        assert!(src.needs_samples());
        src.load(b);
        while let Some(x) = src.next_sample() {
            seen.push(x);
        }
    }
    assert_eq!(seen, vec![(1, 0), (2, 1), (3, 2), (4, 3), (5, 4), (6, 5)]);
    src.load(vec![]);
    assert_eq!(src.next_sample(), None);
    src.load(vec![7]);
    assert_eq!(src.next_sample(), Some((7, 6)));
}

#[test]
fn split_after_advancing_is_the_split_from_the_start() {
    let items: Vec<u32> = (10..20).collect();
    let fresh = EvenOddIter::from(&items);
    let mut advanced = EvenOddIter::from(&items);
    advanced.next();
    advanced.next();
    advanced.next();
    assert_eq!(drain(advanced.even()), drain(fresh.even()));
    assert_eq!(drain(advanced.odd()), drain(fresh.odd()));
    assert_eq!(drain(advanced.odd()), vec![11, 13, 15, 17, 19]);
}
