use beatmap_tui::error::Error;
use beatmap_tui::utils::loop_vec::{IntoLoopVecIter, LoopVecIter};

#[test]
fn test_loop_vec_iter() {
    let mut v = vec![1, 2, 3].into_loop_vec_iter().unwrap();
    assert_eq!(v.selected(), &1);
    assert_eq!(v.index(), 0);
    assert_eq!(v.next(), &2);
    assert_eq!(v.next(), &3);
    assert_eq!(v.next(), &1);
    assert_eq!(v.prev(), &3);
    assert_eq!(v.index(), 2);
}

#[test]
fn empty_vector_is_refused() {
    let empty: Vec<u8> = Vec::new();
    assert!(matches!(LoopVecIter::from(empty), Err(Error::EmptyList)));
    let empty: Vec<u8> = Vec::new();
    assert!(matches!(empty.into_loop_vec_iter(), Err(Error::EmptyList)));
}

#[test]
fn selected_mut_changes_one_element() {
    let mut v = LoopVecIter::from(vec![10, 20, 30]).unwrap();
    v.next();
    *v.selected_mut() = 21;
    assert_eq!(v.index(), 1);
    assert_eq!(v.selected(), &21);
    assert_eq!(v.next(), &30);
    assert_eq!(v.next(), &10);
    assert_eq!(v.next(), &21);
}

#[test]
fn walk_of_one_element_stays() {
    let mut v = LoopVecIter::from(vec!['a']).unwrap();
    assert_eq!(v.next(), &'a');
    assert_eq!(v.prev(), &'a');
    assert_eq!(v.index(), 0);
}

#[test]
fn full_turn_returns_to_start() {
    let items = vec![5, 6, 7, 8, 9];
    let n = items.len();
    let mut v = LoopVecIter::from(items).unwrap();
    v.next();
    v.next();
    let start = v.index();
    for _ in 0..n {
        v.next();
    }
    assert_eq!(v.index(), start);
    for _ in 0..n {
        v.prev();
    }
    assert_eq!(v.index(), start);
}

#[test]
fn error_messages() {
    assert_eq!(Error::EmptyList.message(), "LoopVec cannot construct from empty vec.");
    assert_eq!(
        Error::IndexOutOfRange { index: 4, len: 4 }.message(),
        "select index out of range"
    );
}
