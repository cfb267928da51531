use proc_manager::screens::{
    LogViewState, ProcessListState, ServerListState, SortColumn, WorkspaceListState,
};

#[test]
fn process_list_stops_at_its_ends() {
    let mut s = ProcessListState::new();
    assert_eq!(s.sort_by, SortColumn::Cpu);
    assert!(s.sort_descending);
    s.next(3);
    assert_eq!(s.selected, Some(0));
    s.next(3);
    s.next(3);
    s.next(3);
    assert_eq!(s.selected, Some(2));
    s.previous(3);
    assert_eq!(s.selected, Some(1));
    s.previous(3);
    s.previous(3);
    assert_eq!(s.selected, Some(0));
    s.next(0);
    assert_eq!(s.selected, None);
}

#[test]
fn server_list_wraps_around() {
    let mut s = ServerListState::new();
    s.previous(3);
    assert_eq!(s.selected, Some(0));
    s.previous(3);
    assert_eq!(s.selected, Some(2));
    s.next(3);
    assert_eq!(s.selected, Some(0));
    s.next(0);
    assert_eq!(s.selected, Some(0));
}

#[test]
fn workspace_list_forgets_the_item_when_moving() {
    let mut s = WorkspaceListState::new();
    s.next(2);
    s.item_next(5);
    s.item_next(5);
    assert_eq!(s.item_selected, Some(1));
    s.next(2);
    assert_eq!(s.selected, Some(1));
    assert_eq!(s.item_selected, None);
    s.next(2);
    assert_eq!(s.selected, Some(0));
    s.previous(0);
    assert_eq!(s.selected, None);
}

#[test]
fn log_scrolling_follows_the_last_line() {
    let mut l = LogViewState::new();
    assert!(l.auto_scroll);
    l.scroll_up();
    assert_eq!(l.scroll, 0);
    assert!(l.auto_scroll);
    l.scroll_down(2);
    assert_eq!(l.scroll, 1);
    l.scroll_up();
    assert_eq!(l.scroll, 0);
    assert!(!l.auto_scroll);
    l.scroll_down(1);
    assert_eq!(l.scroll, 1);
    assert!(l.auto_scroll);
    l.scroll_down(1);
    assert_eq!(l.scroll, 1);
}

#[test]
fn log_scroll_is_fitted_to_the_view() {
    let mut l = LogViewState::new();
    l.set_logs((0..30).map(|i| format!("line {}", i)).collect());
    l.fit_scroll(10);
    assert_eq!(l.scroll, 20);
    l.auto_scroll = false;
    l.scroll = 25;
    l.fit_scroll(10);
    assert_eq!(l.scroll, 20);
    l.scroll = 5;
    l.fit_scroll(10);
    assert_eq!(l.scroll, 5);
    l.fit_scroll(40);
    assert_eq!(l.scroll, 0);
}
