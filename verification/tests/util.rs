use beatmap_tui::components::multi_select_list::{DefaultSelection, MultiSelectList};
use beatmap_tui::util::calculate_api_number;
use std::collections::BTreeSet;

#[test]
fn test_calculate_api_number() {
    let mut set1 = BTreeSet::new();
    set1.insert(1);
    set1.insert(3);
    set1.insert(4);
    assert_eq!(calculate_api_number(&set1), 1 + 4 + 8);
}

#[test]
fn api_number_of_no_identifier_is_zero() {
    assert_eq!(calculate_api_number(&BTreeSet::new()), 0);
}

#[test]
fn api_number_of_the_highest_identifier() {
    let top = usize::BITS as usize;
    assert_eq!(calculate_api_number(&BTreeSet::from([top])), 1usize << (top - 1));
    let all: BTreeSet<usize> = (1..=top).collect();
    assert_eq!(calculate_api_number(&all), usize::MAX);
}

#[test]
fn identifiers_are_positions_raised_by_one() {
    let names: Vec<String> = (0..6).map(|i| format!("{}", i)).collect();
    let list = MultiSelectList::new(names, DefaultSelection::Partial(vec![0, 3, 5]));
    let identifiers: BTreeSet<usize> = list.selected().iter().map(|i| i + 1).collect();
    assert_eq!(calculate_api_number(&identifiers), list.bit_sum() as usize);
    assert_eq!(list.bit_sum(), 0b101001);
}
