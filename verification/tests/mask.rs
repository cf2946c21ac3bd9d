use erased_cells::Mask;

#[test]
fn counts() {
    let m = Mask::fill(3, true);
    assert_eq!(m.counts(), (3, 0));
    let m = Mask::fill(3, false);
    assert_eq!(m.counts(), (0, 3));
    let m = Mask::fill_via(3, |i| i % 2 == 0);
    assert_eq!(m.counts(), (2, 1));
}

#[test]
fn set() {
    let mut m = Mask::fill(3, true);
    m.put(1, false);
    m[0] = false;
    assert_eq!(m, Mask::new(vec![false, false, true]));
}

#[test]
fn not() {
    let t = Mask::fill(4, true);
    let f = Mask::fill(4, false);
    assert_eq!(!&t, f);
    assert_eq!(!t, f);

    let m = Mask::new(vec![true, false, true, false]);
    let r = Mask::new(vec![false, true, false, true]);
    assert_eq!(!&m, r);
    assert_eq!(!m, r);
}

#[test]
fn all() {
    let m = Mask::fill_via(4, |i| i % 2 == 0);
    assert!(!m.all(true));
    assert!(!m.all(false));
    let m = Mask::fill(4, true);
    assert!(m.all(true));
    assert!(!m.all(false));
}

#[test]
fn and() {
    let l = Mask::fill_via(4, |i| i % 2 == 0);
    let r = Mask::fill_via(4, |i| i % 2 != 0);
    // non-consuming
    assert!((&l & &r).all(false));
    // consuming
    assert!((l & r).all(false));
}

#[test]
fn or() {
    let l = Mask::fill_via(4, |i| i % 2 == 0);
    let r = Mask::fill_via(4, |i| i % 2 != 0);
    // non-consuming
    assert!((&l | &r).all(true));
    // consuming
    assert!((l | r).all(true));
}

#[test]
fn fill_counts_all_on_one_side() {
    assert_eq!(Mask::fill(4, true).counts(), (4, 0));
    assert_eq!(Mask::fill(0, true).counts(), (0, 0));
    assert_eq!(Mask::fill(7, false).counts(), (0, 7));
    assert!(Mask::fill(0, false).is_empty());
    assert_eq!(Mask::default().len(), 0);
}

#[test]
fn conjunction_of_masks() {
    let l = Mask::new(vec![true, false, true]);
    let r = Mask::new(vec![true, true, false]);
    assert_eq!(&l & &r, Mask::new(vec![true, false, false]));
    assert_eq!(&r & &l, Mask::new(vec![true, false, false]));
    assert_eq!(&l | &r, Mask::new(vec![true, true, true]));
    // with a mask that is valid throughout, a mask stays as it is
    assert_eq!(&l & &Mask::fill(3, true), l);
    assert_eq!((&l & &Mask::fill(3, true)).counts(), l.counts());
}

#[test]
fn masks_of_different_length() {
    let long = Mask::new(vec![true, true, false, true, true]);
    let short = Mask::new(vec![false, true]);
    // by reference: as long as the shorter one
    assert_eq!(&long & &short, Mask::new(vec![false, true]));
    assert_eq!(&long | &short, Mask::new(vec![true, true]));
    // by value: as long as the left one, which keeps its tail
    assert_eq!(
        long.clone() & short.clone(),
        Mask::new(vec![false, true, false, true, true])
    );
    assert_eq!(
        Mask::new(vec![false, false, false]) | short.clone(),
        Mask::new(vec![false, true, false])
    );
    assert_eq!(short & long, Mask::new(vec![false, true]));
}

#[test]
fn get_put_extend_and_index() {
    let mut m = Mask::fill(2, false);
    assert!(!m.get(1));
    *m.get_mut(1) = true;
    assert!(m.get(1));
    assert!(m[1]);
    m.extend(vec![true]);
    m.push(false);
    assert_eq!(m.len(), 4);
    assert_eq!(m.clone().into_vec(), vec![false, true, true, false]);
    assert_eq!(m.inverse(), Mask::new(vec![true, false, false, true]));
    assert_ne!(m, Mask::fill(4, false));
    assert_ne!(m, Mask::new(vec![false, true, true]));
}

#[test]
fn mask_rendering() {
    assert_eq!(Mask::new(vec![true]).debug_string(), "Mask(true)");
    assert_eq!(Mask::new(vec![]).debug_string(), "Mask()");
    assert_eq!(
        Mask::new(vec![true, false, true]).debug_string(),
        "Mask(true, false, true)"
    );
    assert_eq!(
        Mask::fill_via(12, |i| i == 0 || i == 11).debug_string(),
        "Mask(true, false, false, false, false, ... false, false, false, false, true)"
    );
    assert_eq!(
        Mask::fill(10, true).debug_string(),
        "Mask(true, true, true, true, true, true, true, true, true, true)"
    );
}

#[test]
fn order_of_masks() {
    let a = Mask::new(vec![false, true]);
    let b = Mask::new(vec![true, false]);
    let c = Mask::new(vec![false, true, false]);
    assert!(a < b);
    assert!(b > a);
    assert!(a < c);
    assert!(c < b);
    assert!(Mask::default() < a);
    assert_eq!(a.cmp(&a.clone()), std::cmp::Ordering::Equal);
    assert_eq!(a.partial_cmp(&c), vec![false, true].partial_cmp(&vec![false, true, false]));
    assert_eq!(b.partial_cmp(&c), vec![true, false].partial_cmp(&vec![false, true, false]));
}
