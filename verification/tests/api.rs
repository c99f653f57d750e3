use beatmap_tui::api::API;
use beatmap_tui::components::multi_select_list::{DefaultSelection, MultiSelectList};

#[test]
fn new_request_has_no_command() {
    let api = API::new(25, Some(50), None);
    assert_eq!(api.cmd, "");
    assert_eq!(api.limit, 25);
    assert_eq!(api.offset, Some(50));
    assert_eq!(api.type_, None);
}

#[test]
fn with_cmd_sets_the_command_only() {
    let api = API::new(10, None, Some(4)).with_cmd("beatmaplist".to_string());
    assert_eq!(api.cmd, "beatmaplist");
    assert_eq!(api.limit, 10);
    assert_eq!(api.offset, None);
    assert_eq!(api.type_, Some(4));
}

#[test]
fn set_cmd_replaces_the_command() {
    let mut api = API::new(1, Some(2), Some(3)).with_cmd("a".to_string());
    api.set_cmd("b".to_string());
    assert_eq!(api, API { cmd: "b".to_string(), limit: 1, offset: Some(2), type_: Some(3) });
}

#[test]
fn request_from_a_selection() {
    let names: Vec<String> = ["std", "taiko", "ctb", "mania"].iter().map(|s| s.to_string()).collect();
    let mut list = MultiSelectList::new(names, DefaultSelection::Full);
    let api = API::from_selection(&list, 25, None);
    assert_eq!(api.cmd, "beatmaplist");
    assert_eq!(api.limit, 25);
    assert_eq!(api.offset, None);
    assert_eq!(api.type_, Some(0b1111));
    list.select(1).unwrap();
    list.select(3).unwrap();
    let api = API::from_selection(&list, 5, Some(10));
    assert_eq!(api.type_, Some(0b0101));
    assert_eq!(api.offset, Some(10));
    list.select(0).unwrap();
    list.select(2).unwrap();
    assert_eq!(API::from_selection(&list, 5, None).type_, Some(0));
}

#[test]
fn request_from_a_long_list_with_low_positions_selected() {
    let names: Vec<String> = (0..50).map(|i| format!("{}", i)).collect();
    let list = MultiSelectList::new(names, DefaultSelection::Partial(vec![1, 30]));
    assert_eq!(API::from_selection(&list, 1, None).type_, Some((1 << 30) | 2));
}
