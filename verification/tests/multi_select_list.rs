use beatmap_tui::components::multi_select_list::{DefaultSelection, MultiSelectList};
use beatmap_tui::error::Error;
use beatmap_tui::style::Color;
use std::collections::BTreeSet;

fn labels(names: &[&str]) -> Vec<String> {
    names.iter().map(|s| s.to_string()).collect()
}

#[test]
fn test_select() {
    let mut list = MultiSelectList::new(
        labels(&["Alice", "Bob", "Carol", "David"]),
        DefaultSelection::First,
    );
    assert_eq!(list.cursor(), 0);
    assert_eq!(list.selected(), &BTreeSet::from([0]));
    list.next();
    assert_eq!(list.cursor(), 1);
    list.select(2).unwrap();
    assert_eq!(list.selected(), &BTreeSet::from([0, 2]));
    assert_eq!(list.bit_sum(), 0b101);
}

#[test]
fn default_policies_select_what_they_name() {
    let names = ["a", "b", "c", "d", "e"];
    let empty = MultiSelectList::new(labels(&names), DefaultSelection::Empty);
    assert_eq!(empty.selected(), &BTreeSet::new());
    let full = MultiSelectList::new(labels(&names), DefaultSelection::Full);
    assert_eq!(full.selected(), &BTreeSet::from([0, 1, 2, 3, 4]));
    let first = MultiSelectList::new(labels(&names), DefaultSelection::First);
    assert_eq!(first.selected(), &BTreeSet::from([0]));
    let some = MultiSelectList::new(labels(&names), DefaultSelection::Partial(vec![3, 1, 3]));
    assert_eq!(some.selected(), &BTreeSet::from([1, 3]));
    assert_eq!(some.len(), 5);
    assert_eq!(some.cursor(), 0);
}

#[test]
fn full_list_with_one_toggled_off() {
    let mut list = MultiSelectList::new(labels(&["a", "b", "c", "d", "e"]), DefaultSelection::Full);
    assert_eq!(list.select(2), Ok(false));
    assert_eq!(list.selected(), &BTreeSet::from([0, 1, 3, 4]));
    assert_eq!(list.bit_sum(), 0b11011);
    assert_eq!(list.bit_sum(), 27);
}

#[test]
fn three_steps_round_three_items() {
    let mut list = MultiSelectList::new(labels(&["a", "b", "c"]), DefaultSelection::First);
    list.next();
    assert_eq!(list.cursor(), 1);
    list.next();
    assert_eq!(list.cursor(), 2);
    list.next();
    assert_eq!(list.cursor(), 0);
    list.prev();
    assert_eq!(list.cursor(), 2);
}

#[test]
fn toggling_twice_restores_the_selection() {
    let mut list =
        MultiSelectList::new(labels(&["a", "b", "c", "d"]), DefaultSelection::Partial(vec![1, 2]));
    let before = list.selected().clone();
    assert_eq!(list.select(3), Ok(true));
    assert!(list.is_selected(3));
    assert_eq!(list.select(3), Ok(false));
    assert!(!list.is_selected(3));
    assert_eq!(list.selected(), &before);
    assert_eq!(list.select(1), Ok(false));
    assert_eq!(list.select(1), Ok(true));
    assert_eq!(list.selected(), &before);
}

#[test]
fn bit_sum_does_not_depend_on_the_order_of_toggles() {
    let names = ["a", "b", "c", "d", "e", "f"];
    let mut one = MultiSelectList::new(labels(&names), DefaultSelection::Empty);
    let mut other = MultiSelectList::new(labels(&names), DefaultSelection::Empty);
    for i in [0, 2, 5, 2, 4, 2] {
        one.select(i).unwrap();
    }
    for i in [4, 2, 5, 0] {
        other.select(i).unwrap();
    }
    assert_eq!(one.selected(), other.selected());
    assert_eq!(one.bit_sum(), other.bit_sum());
    assert_eq!(one.bit_sum(), 0b110101);
}

#[test]
fn select_out_of_range_is_refused() {
    let mut list = MultiSelectList::new(labels(&["a", "b"]), DefaultSelection::Full);
    assert_eq!(list.select(2), Err(Error::IndexOutOfRange { index: 2, len: 2 }));
    assert_eq!(list.select(usize::MAX), Err(Error::IndexOutOfRange { index: usize::MAX, len: 2 }));
    assert_eq!(list.selected(), &BTreeSet::from([0, 1]));
    assert_eq!(list.cursor(), 0);
}

#[test]
fn select_cursor_flips_under_the_cursor() {
    let mut list = MultiSelectList::new(labels(&["a", "b", "c"]), DefaultSelection::Empty);
    list.prev();
    assert_eq!(list.cursor(), 2);
    assert!(list.select_cursor());
    assert_eq!(list.selected(), &BTreeSet::from([2]));
    assert!(!list.select_cursor());
    assert_eq!(list.selected(), &BTreeSet::new());
}

#[test]
fn bit_sum_of_the_widest_list() {
    let names: Vec<String> = (0..32).map(|i| format!("item {}", i)).collect();
    let mut list = MultiSelectList::new(names, DefaultSelection::Full);
    assert_eq!(list.bit_sum(), u32::MAX);
    list.select(31).unwrap();
    assert_eq!(list.bit_sum(), 0x7fff_ffff);
    list.select(0).unwrap();
    assert_eq!(list.bit_sum(), 0x7fff_fffe);
    let none = MultiSelectList::new(labels(&["x"]), DefaultSelection::Empty);
    assert_eq!(none.bit_sum(), 0);
}

#[test]
fn colours_follow_the_selection() {
    let list = MultiSelectList::new(labels(&["a", "b"]), DefaultSelection::First);
    assert_eq!(list.color_of(0), Color::Green);
    assert_eq!(list.color_of(1), Color::White);
    let mut list = list.set_selected_color(Color::Rgb(1, 2, 3));
    assert_eq!(list.color_of(0), Color::Rgb(1, 2, 3));
    assert_eq!(list.color_of(1), Color::White);
    assert_eq!(list.color_of(9), Color::White);
    list.select(1).unwrap();
    assert_eq!(list.color_of(1), Color::Rgb(1, 2, 3));
    assert_eq!(list.selected(), &BTreeSet::from([0, 1]));
}

#[test]
fn labels_are_kept_in_order() {
    let list = MultiSelectList::new(labels(&["x", "y", "z"]), DefaultSelection::Empty);
    let seen: Vec<&String> = list.iter().collect();
    assert_eq!(seen, vec!["x", "y", "z"]);
    let copy = list.clone();
    assert_eq!(copy, list);
}

#[test]
fn try_new_refuses_what_new_may_not_take() {
    assert_eq!(
        MultiSelectList::try_new(Vec::new(), DefaultSelection::Full),
        Err(Error::EmptyList)
    );
    assert_eq!(
        MultiSelectList::try_new(Vec::new(), DefaultSelection::Partial(vec![0])),
        Err(Error::EmptyList)
    );
    assert_eq!(
        MultiSelectList::try_new(labels(&["a", "b", "c"]), DefaultSelection::Partial(vec![3])),
        Err(Error::IndexOutOfRange { index: 3, len: 3 })
    );
    assert_eq!(
        MultiSelectList::try_new(
            labels(&["a", "b", "c"]),
            DefaultSelection::Partial(vec![1, 7, 2, 5])
        ),
        Err(Error::IndexOutOfRange { index: 7, len: 3 })
    );
}

#[test]
fn try_new_makes_the_list_that_new_makes() {
    let names = ["a", "b", "c"];
    for (default, expected) in [
        (DefaultSelection::Empty, BTreeSet::new()),
        (DefaultSelection::Full, BTreeSet::from([0, 1, 2])),
        (DefaultSelection::First, BTreeSet::from([0])),
        (DefaultSelection::Partial(vec![2, 0, 2]), BTreeSet::from([0, 2])),
        (DefaultSelection::Partial(Vec::new()), BTreeSet::new()),
    ] {
        let list = MultiSelectList::try_new(labels(&names), default).unwrap();
        assert_eq!(list.selected(), &expected);
        assert_eq!(list.cursor(), 0);
        assert_eq!(list.len(), 3);
        assert_eq!(list.color_of(0), if expected.contains(&0) { Color::Green } else { Color::White });
    }
}

#[test]
fn bit_sum_of_a_long_list_with_low_positions_selected() {
    let names: Vec<String> = (0..40).map(|i| format!("item {}", i)).collect();
    let mut list = MultiSelectList::new(names, DefaultSelection::Partial(vec![0, 31]));
    assert_eq!(list.bit_sum(), 0x8000_0001);
    list.select(31).unwrap();
    list.select(5).unwrap();
    assert_eq!(list.bit_sum(), 0b100001);
}
