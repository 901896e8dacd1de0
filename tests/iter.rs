use pin_array::iter::Iter;
use pin_array::PinArray;

#[test]
fn size_matches() {
    let pa = PinArray::new([1, 2, 3]);
    let mut i = Iter::new(&pa);
    assert_eq!(i.len(), 3);
    i.next();
    assert_eq!(i.len(), 2);
    i.next();
    assert_eq!(i.len(), 1);
    i.next();
    assert_eq!(i.len(), 0);
}

#[test]
fn iter_yields_in_order_then_none() {
    let p = PinArray::new(['h', 'i']);
    let mut i = p.iter();
    assert_eq!(i.next(), Some(&'h'));
    assert_eq!(i.next(), Some(&'i'));
    assert_eq!(i.next(), None);
    assert_eq!(i.len(), 0);
    assert_eq!(i.next(), None);
}

#[test]
fn iter_twice_gives_same_items() {
    let p = PinArray::new([4u8, 5, 6]);
    let mut first = Vec::new();
    let mut a = p.iter();
    while let Some(x) = a.next() {
        first.push(*x);
    }
    let mut second = Vec::new();
    let mut b = p.iter();
    while let Some(x) = b.next() {
        second.push(*x);
    }
    assert_eq!(first, vec![4, 5, 6]);
    assert_eq!(first, second);
}

#[test]
fn iter_mut_len_counts_down() {
    let mut p = PinArray::new([1, 2, 3]);
    let mut it = p.iter_mut();
    assert_eq!(it.len(), 3);
    assert!(it.next().is_some());
    assert_eq!(it.len(), 2);
    assert!(it.next().is_some());
    assert!(it.next().is_some());
    assert_eq!(it.len(), 0);
    assert!(it.next().is_none());
    assert_eq!(it.len(), 0);
}

#[test]
fn iter_mut_writes_reach_the_array() {
    let mut p = PinArray::new([1, 2, 3]);
    let mut it = p.iter_mut();
    while let Some(h) = it.next() {
        *h *= 10;
    }
    assert_eq!(p.get(0), Some(&10));
    assert_eq!(p.get(1), Some(&20));
    assert_eq!(p.get(2), Some(&30));
}

#[test]
fn iter_mut_handles_are_distinct() {
    let mut p = PinArray::new([7u32, 7, 7]);
    let mut handles = Vec::new();
    let mut iter = p.iter_mut();
    while let Some(h) = iter.next() {
        handles.push(h);
    }
    assert_eq!(handles.len(), 3);
    for (k, h) in handles.iter_mut().enumerate() {
        **h = k as u32;
    }
    for (k, h) in handles.iter().enumerate() {
        assert_eq!(**h, k as u32);
    }
    drop(handles);
    assert_eq!(p.get(0), Some(&0));
    assert_eq!(p.get(1), Some(&1));
    assert_eq!(p.get(2), Some(&2));
}

#[test]
fn iter_mut_matches_get_pin() {
    let mut a = PinArray::new([3u8, 1, 4, 1, 5]);
    let mut b = a;
    let mut it = a.iter_mut();
    let mut k: usize = 0;
    while let Some(h) = it.next() {
        let g = b.get_pin(k).unwrap();
        assert_eq!(*h, *g);
        *h += 1;
        *g += 1;
        k += 1;
    }
    assert_eq!(k, 5);
    assert_eq!(a, b);
    assert_eq!(a, PinArray::new([4, 2, 5, 2, 6]));
}
