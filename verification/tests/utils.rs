use zero::utils::const_vec::ConstVec;
use zero::utils::sparse_set::{SparseSet, SparseVec};

#[test]
fn const_vec_default() {
    _ = ConstVec::<10, u32>::default();
}

#[test]
fn const_vec_from_vec() {
    let test_vec: [u32; 3] = [1, 2, 3];
    let _ = ConstVec::<5, u32>::from_iter(test_vec.to_vec());
}

#[test]
fn const_vec_push() {
    let mut cv = ConstVec::<1, u32>::default();
    cv.push(1);
}

#[test]
fn const_vec_as_slice() {
    let mut cv = ConstVec::<1, u32>::default();
    cv.push(1);
    assert_eq!(&[1], cv.as_slice());
}

#[test]
fn const_vec_iter() {
    let mut cv = ConstVec::<1, u32>::default();
    cv.push(1);

    let from_iter = cv.iter().copied().collect::<Vec<u32>>();
    assert_eq!(&from_iter, &[1]);
}

#[test]
fn sparse_vec_insert() {
    let mut sv = SparseVec::with_capacity(10);
    assert_eq!(sv.capacity(), 10);

    sv.insert(0, 0);
    sv.insert(2, 2);
    sv.insert(5, 5);
    assert!(sv.contains(0));
    assert!(sv.contains(2));
    assert!(sv.contains(5));
}

#[test]
fn sparse_vec_remove() {
    let mut sv = SparseVec::with_capacity(10);
    sv.insert(0, 0);
    sv.insert(2, 2);
    sv.insert(5, 5);

    assert!(sv.contains(0));
    assert!(sv.contains(2));
    assert!(sv.contains(5));
    assert!(!sv.contains(1));
    assert!(!sv.contains(3));
    assert!(!sv.contains(4));

    let removed = sv.remove(0);
    assert_eq!(removed, Some(0));
    assert!(!sv.contains(0));

    let removed = sv.remove(2);
    assert_eq!(removed, Some(2));
    assert!(!sv.contains(2));

    let removed = sv.remove(5);
    assert_eq!(removed, Some(5));
    assert!(!sv.contains(5));
}

#[test]
fn sparse_vec_get() {
    let mut sv = SparseVec::with_capacity(10);
    sv.insert(0, 0);
    assert!(sv.contains(0));

    let i_0 = sv.get(0);
    assert_eq!(i_0, Some(&0));

    sv.remove(0);
    assert!(!sv.contains(0));

    let i_0 = sv.get(0);
    assert_eq!(i_0, None);
}

#[test]
fn sparse_vec_get_mut() {
    let mut sv = SparseVec::with_capacity(10);
    sv.insert(0, 0);
    assert!(sv.contains(0));

    let i_0 = sv.get_mut(0);
    assert_eq!(i_0, Some(&mut 0));

    *i_0.unwrap() = 1;

    let i_0 = sv.get_mut(0);
    assert_eq!(i_0, Some(&mut 1));

    sv.remove(0);
    assert!(!sv.contains(0));

    let i_0 = sv.get_mut(0);
    assert_eq!(i_0, None);
}

#[test]
fn sparse_set_insert() {
    let mut ss = SparseSet::with_capacity(10);
    assert_eq!(ss.capacity(), 10);

    let index_0 = ss.insert(0);
    let index_1 = ss.insert(1);
    let index_2 = ss.insert(2);

    assert_eq!(ss.len(), 3);
    assert!(!ss.is_empty());

    assert_eq!(index_0, 0);
    assert_eq!(index_1, 1);
    assert_eq!(index_2, 2);

    assert!(ss.contains(index_0));
    assert!(ss.contains(index_1));
    assert!(ss.contains(index_2));
}

#[test]
fn sparse_set_remove() {
    let mut ss = SparseSet::with_capacity(10);

    let index_0 = ss.insert(0);
    let index_1 = ss.insert(1);
    let index_2 = ss.insert(2);

    ss.remove(index_0);
    assert!(!ss.contains(index_0));

    ss.remove(index_1);
    assert!(!ss.contains(index_1));

    ss.remove(index_2);
    assert!(!ss.contains(index_2));
}

#[test]
fn sparse_set_get() {
    let mut sv = SparseSet::with_capacity(10);
    sv.insert(0);
    assert!(sv.contains(0));

    let i_0 = sv.get(0);
    assert_eq!(i_0, Some(&0));

    sv.remove(0);
    assert!(!sv.contains(0));

    let i_0 = sv.get(0);
    assert_eq!(i_0, None);
}

#[test]
fn sparse_set_get_mut() {
    let mut sv = SparseSet::with_capacity(10);
    sv.insert(0);
    assert!(sv.contains(0));

    let i_0 = sv.get_mut(0);
    assert_eq!(i_0, Some(&mut 0));

    *i_0.unwrap() = 1;

    let i_0 = sv.get_mut(0);
    assert_eq!(i_0, Some(&mut 1));

    sv.remove(0);
    assert!(!sv.contains(0));

    let i_0 = sv.get_mut(0);
    assert_eq!(i_0, None);
}

#[test]
fn sparse_set_insert_remove() {
    let mut ss = SparseSet::with_capacity(10);

    let indexes: Vec<usize> = (0..10).map(|i| ss.insert(i)).collect();
    assert_eq!(ss.len(), 10);

    for i in indexes.iter().step_by(2) {
        ss.remove(*i);
        assert!(!ss.contains(*i));
    }

    for i in indexes.iter().skip(1).step_by(2) {
        ss.remove(*i);
        assert!(!ss.contains(*i));
    }

    assert!(ss.is_empty());
}

#[test]
fn sparse_vec_insert_grows_and_overwrites() {
    let mut sv = SparseVec::new();
    assert!(!sv.contains(7));
    sv.insert("a", 7);
    assert_eq!(sv.get(7), Some(&"a"));
    assert!(sv.capacity() >= 8);
    sv.insert("b", 7);
    assert_eq!(sv.get(7), Some(&"b"));
    assert_eq!(sv.remove(7), Some("b"));
    assert_eq!(sv.remove(7), None);
    assert_eq!(sv.get(100), None);
    assert!(!sv.contains(100));
}

#[test]
fn sparse_set_remove_moves_last_value() {
    let mut ss = SparseSet::new();
    let a = ss.insert('a');
    let b = ss.insert('b');
    let c = ss.insert('c');
    assert_eq!(ss.remove(a), Some('a'));
    assert_eq!(ss.len(), 2);
    assert_eq!(ss.get(b), Some(&'b'));
    assert_eq!(ss.get(c), Some(&'c'));
    assert_eq!(ss.remove(a), None);
    assert_eq!(ss.remove(c), Some('c'));
    assert_eq!(ss.get(b), Some(&'b'));
    assert_eq!(ss.len(), 1);
}

#[test]
fn sparse_set_insert_after_remove_reuses_a_live_key() {
    let mut ss = SparseSet::new();
    let a = ss.insert(10);
    let b = ss.insert(20);
    assert_eq!(ss.remove(a), Some(10));
    let c = ss.insert(30);
    assert_eq!(c, 1);
    assert_eq!(c, b);
    assert_eq!(ss.get(b), Some(&30));
    assert_eq!(ss.len(), 2);
}

#[test]
fn sparse_set_default_is_empty() {
    let ss: SparseSet<u8> = SparseSet::default();
    assert!(ss.is_empty());
    assert_eq!(ss.len(), 0);
    assert!(!ss.contains(0));
    let sv: SparseVec<u8> = SparseVec::default();
    assert!(!sv.contains(0));
}

#[test]
fn const_vec_map_keeps_order() {
    let cv = ConstVec::<4, u32>::from_iter(vec![1, 2, 3]);
    let doubled = cv.map(|x| x * 2);
    assert_eq!(doubled.as_slice(), &[2, 4, 6]);
    let empty = ConstVec::<4, u32>::default();
    assert_eq!(empty.map(|x| x + 1).as_slice(), &[] as &[u32]);
}

#[test]
fn const_vec_fills_to_capacity() {
    let mut cv = ConstVec::<3, &str>::default();
    cv.push("x");
    cv.push("y");
    cv.push("z");
    assert_eq!(cv.as_slice(), &["x", "y", "z"]);
    assert_eq!(cv.iter().count(), 3);
}

#[test]
#[should_panic]
fn const_vec_from_vec_panic() {
    let test_vec: [u32; 3] = [1, 2, 3];
    let _ = ConstVec::<2, u32>::from_iter(test_vec.to_vec());
}

#[test]
#[should_panic]
fn const_vec_push_panic() {
    let mut cv = ConstVec::<1, u32>::default();
    cv.push(1);
    cv.push(2);
}
