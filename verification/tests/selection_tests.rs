use cmake_runner::list_box::state::ListBoxState;
use cmake_runner::stateful_list::{SelectionCursor, StatefulList};

fn list_of(items: Vec<u32>, selected: Option<usize>) -> StatefulList<u32> {
    StatefulList { state: SelectionCursor { selected }, items }
}

#[test]
fn next_wraps_after_item_count_steps() {
    let mut list = list_of(vec![10, 20, 30], Some(1));
    for _ in 0..3 {
        list.next();
    }
    assert_eq!(list.state.selected, Some(1));
}

#[test]
fn prev_wraps_after_item_count_steps() {
    let mut list = list_of(vec![10, 20, 30, 40], Some(2));
    for _ in 0..4 {
        list.prev();
    }
    assert_eq!(list.state.selected, Some(2));
}

#[test]
fn next_and_prev_stay_in_range() {
    let mut list = list_of(vec![1, 2, 3], Some(0));
    for _ in 0..10 {
        list.next();
        let i = list.state.selected.unwrap();
        assert!(i < list.items.len());
    }
    for _ in 0..10 {
        list.prev();
        let i = list.state.selected.unwrap();
        assert!(i < list.items.len());
    }
}

#[test]
fn next_wraps_from_last_to_first() {
    let mut list = list_of(vec![1, 2, 3], Some(2));
    list.next();
    assert_eq!(list.state.selected, Some(0));
}

#[test]
fn prev_wraps_from_first_to_last() {
    let mut list = list_of(vec![1, 2, 3], Some(0));
    list.prev();
    assert_eq!(list.state.selected, Some(2));
}

#[test]
fn empty_list_keeps_cursor_at_none() {
    let mut list: StatefulList<u32> = Default::default();
    assert_eq!(list.state.selected, None);
    list.next();
    assert_eq!(list.state.selected, None);
    list.prev();
    assert_eq!(list.state.selected, None);
    assert!(list.get_selected().is_none());
}

#[test]
fn unselected_nonempty_list_selects_first() {
    let mut list = list_of(vec![5, 6], None);
    list.next();
    assert_eq!(list.state.selected, Some(0));
    let mut list = list_of(vec![5, 6], None);
    list.prev();
    assert_eq!(list.state.selected, Some(0));
}

#[test]
fn get_selected_returns_item_under_cursor() {
    let list = list_of(vec![10, 20, 30], Some(1));
    assert_eq!(list.get_selected(), Some(&20));
}

#[test]
fn get_selected_handles_out_of_range_cursor() {
    let list = list_of(vec![10], Some(5));
    assert_eq!(list.get_selected(), None);
}

#[test]
fn set_items_reestablishes_cursor() {
    let mut list = list_of(vec![1, 2, 3], Some(2));
    list.set_items(vec![7]);
    assert_eq!(list.state.selected, Some(0));

    let mut list = list_of(vec![1, 2, 3], Some(1));
    list.set_items(vec![7, 8, 9]);
    assert_eq!(list.state.selected, Some(1));

    let mut list = list_of(vec![1], Some(0));
    list.set_items(Vec::new());
    assert_eq!(list.state.selected, None);

    let mut list: StatefulList<u32> = Default::default();
    list.set_items(vec![4, 5]);
    assert_eq!(list.state.selected, Some(0));
}

#[test]
fn list_box_state_delegates_to_cyclic_cursor() {
    let mut pane = ListBoxState { list: list_of(vec![1, 2], Some(1)), active: true };
    pane.next();
    assert_eq!(pane.list.state.selected, Some(0));
    pane.prev();
    assert_eq!(pane.list.state.selected, Some(1));
    assert_eq!(pane.get_selected(), Some(&2));
}

#[test]
fn list_box_state_default_is_active_and_empty() {
    let pane: ListBoxState<u32> = Default::default();
    assert!(pane.active);
    assert!(pane.list.items.is_empty());
    assert_eq!(pane.list.state.selected, None);
}
