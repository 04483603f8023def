use cmux::app::{SharedState, UiEvent};
use cmux::model::Workspace;
use cmux::notifications::Notification;
use cmux::window::{
    batch_needs_refresh, close_selected_workspace, jump_to_workspace, mark_workspace_read,
    select_latest_unread, select_workspace_by_index, select_workspace_by_row,
};

fn note(workspace_id: u128, read: bool) -> Notification {
    Notification { workspace_id, panel_id: 0, title: "done".to_string(), read }
}

fn three() -> SharedState {
    let mut shared = SharedState::new();
    shared.tab_manager.add_workspace(Workspace::new());
    shared.tab_manager.add_workspace(Workspace::new());
    shared
}

#[test]
fn selecting_marks_workspace_read() {
    let mut shared = three();
    let id0 = shared.tab_manager.get(0).unwrap().id;
    let id1 = shared.tab_manager.get(1).unwrap().id;
    shared.notifications.notifications.push(note(id0, false));
    shared.notifications.notifications.push(note(id1, false));
    assert!(select_workspace_by_index(&mut shared, 0));
    assert_eq!(shared.tab_manager.selected_index(), Some(0));
    assert!(shared.notifications.notifications[0].read);
    assert!(!shared.notifications.notifications[1].read);
}

#[test]
fn selecting_selected_or_missing_workspace_returns_false() {
    let mut shared = three();
    assert!(!select_workspace_by_index(&mut shared, 2));
    assert!(!select_workspace_by_index(&mut shared, 3));
    assert_eq!(shared.tab_manager.selected_index(), Some(2));
    assert!(select_workspace_by_index(&mut shared, 1));
    assert!(!select_workspace_by_index(&mut shared, 1));
}

#[test]
fn negative_rows_select_nothing() {
    let mut shared = three();
    assert!(!select_workspace_by_row(&mut shared, -1));
    assert_eq!(shared.tab_manager.selected_index(), Some(2));
    assert!(select_workspace_by_row(&mut shared, 0));
    assert_eq!(shared.tab_manager.selected_index(), Some(0));
}

#[test]
fn jump_slot_nine_goes_to_last_workspace() {
    let mut shared = three();
    assert!(jump_to_workspace(&mut shared, 1));
    assert_eq!(shared.tab_manager.selected_index(), Some(0));
    assert!(jump_to_workspace(&mut shared, 9));
    assert_eq!(shared.tab_manager.selected_index(), Some(2));
    assert!(!jump_to_workspace(&mut shared, 5));
    assert_eq!(shared.tab_manager.selected_index(), Some(2));
}

#[test]
fn jump_with_no_workspace_does_nothing() {
    let mut shared = SharedState::new();
    close_selected_workspace(&mut shared);
    assert!(shared.tab_manager.is_empty());
    assert!(!jump_to_workspace(&mut shared, 9));
    assert!(!jump_to_workspace(&mut shared, 1));
}

#[test]
fn latest_unread_is_selected_and_read() {
    let mut shared = three();
    assert!(!select_latest_unread(&mut shared));
    let mut ws = Workspace::new();
    ws.latest_unread = Some(3);
    let id = ws.id;
    shared.tab_manager.add_workspace(ws);
    shared.notifications.notifications.push(note(id, false));
    assert!(shared.tab_manager.select(0));
    assert!(select_latest_unread(&mut shared));
    assert_eq!(shared.tab_manager.selected_index(), Some(3));
    assert_eq!(shared.tab_manager.get(3).unwrap().latest_unread, None);
    assert!(shared.notifications.notifications[0].read);
    assert!(!select_latest_unread(&mut shared));
}

#[test]
fn mark_read_of_unknown_workspace_changes_only_nothing() {
    let mut shared = three();
    shared.notifications.notifications.push(note(5, false));
    mark_workspace_read(&mut shared, 6);
    assert!(!shared.notifications.notifications[0].read);
    mark_workspace_read(&mut shared, 5);
    assert!(shared.notifications.notifications[0].read);
}

#[test]
fn closing_selected_workspace_moves_selection() {
    let mut shared = three();
    assert!(shared.tab_manager.select(1));
    close_selected_workspace(&mut shared);
    assert_eq!(shared.tab_manager.len(), 2);
    assert_eq!(shared.tab_manager.selected_index(), Some(1));
}

#[test]
fn batch_refreshes_once_for_refresh_or_browser_open() {
    assert!(!batch_needs_refresh(&vec![]));
    assert!(!batch_needs_refresh(&vec![
        UiEvent::SendInput { panel_id: 1, text: "x".to_string() },
        UiEvent::BrowserBack { panel_id: 1 },
        UiEvent::BrowserForward { panel_id: 1 },
        UiEvent::BrowserReload { panel_id: 1 },
        UiEvent::BrowserDevTools { panel_id: 1 },
    ]));
    assert!(batch_needs_refresh(&vec![UiEvent::BrowserBack { panel_id: 1 }, UiEvent::Refresh]));
    assert!(batch_needs_refresh(&vec![UiEvent::BrowserOpen {
        panel_id: 1,
        url: "https://example.org".to_string()
    }]));
}

#[test]
fn newest_notification_is_jumped_to() {
    let mut shared = three();
    let id0 = shared.tab_manager.get(0).unwrap().id;
    let id1 = shared.tab_manager.get(1).unwrap().id;
    let p0 = shared.tab_manager.get(0).unwrap().panels[0].id;
    let p1 = shared.tab_manager.get(1).unwrap().panels[0].id;
    assert!(shared.add_notification(id1, p1, "first".to_string()));
    assert!(shared.add_notification(id0, p0, "second".to_string()));
    assert!(!shared.add_notification(7, p0, "lost".to_string()));
    assert_eq!(shared.notifications.notifications.len(), 2);
    assert!(select_latest_unread(&mut shared));
    assert_eq!(shared.tab_manager.selected_index(), Some(0));
    assert!(shared.notifications.notifications[1].read);
    assert!(!shared.notifications.notifications[0].read);
    assert!(select_latest_unread(&mut shared));
    assert_eq!(shared.tab_manager.selected_index(), Some(1));
    assert!(shared.notifications.notifications.iter().all(|n| n.read));
}
