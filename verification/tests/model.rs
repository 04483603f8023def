use cmux::model::{Panel, PanelType, SplitOrientation, TabManager, Workspace};

fn version_of(id: u128) -> u128 {
    (id >> 76) & 0xF
}

#[test]
fn new_workspace_has_one_focused_terminal_with_v4_ids() {
    let ws = Workspace::new();
    assert_eq!(ws.panels.len(), 1);
    assert_eq!(ws.panels[0].panel_type, PanelType::Terminal);
    assert_eq!(ws.focused_panel_id, Some(ws.panels[0].id));
    assert_eq!(ws.process_title, "Terminal");
    assert_eq!(ws.display_title(), "Terminal");
    assert_eq!(version_of(ws.id), 4);
    assert_eq!(version_of(ws.panels[0].id), 4);
    assert_ne!(ws.id, ws.panels[0].id);
}

#[test]
fn display_title_prefers_custom_title() {
    let mut ws = Workspace::new();
    ws.custom_title = Some("mine".to_string());
    assert_eq!(ws.display_title(), "mine");
}

fn panel(id: u128) -> Panel {
    Panel { id, panel_type: PanelType::Terminal, directory: None, split: None }
}

fn workspace_with(ids: &[u128], focus: u128) -> Workspace {
    let mut ws = Workspace::new();
    ws.panels = ids.iter().map(|&i| panel(i)).collect();
    ws.focused_panel_id = Some(focus);
    ws
}

#[test]
fn removing_focused_panel_moves_focus_to_its_successor() {
    let mut ws = workspace_with(&[1, 2, 3], 2);
    ws.attention_panel_id = Some(2);
    assert!(ws.remove_panel(2));
    let ids: Vec<u128> = ws.panels.iter().map(|p| p.id).collect();
    assert_eq!(ids, vec![1, 3]);
    assert_eq!(ws.focused_panel_id, Some(3));
    assert_eq!(ws.attention_panel_id, None);
}

#[test]
fn removing_last_focused_panel_moves_focus_back() {
    let mut ws = workspace_with(&[1, 2, 3], 3);
    assert!(ws.remove_panel(3));
    assert_eq!(ws.focused_panel_id, Some(2));
}

#[test]
fn removing_unfocused_panel_keeps_focus() {
    let mut ws = workspace_with(&[1, 2, 3], 1);
    assert!(ws.remove_panel(3));
    assert_eq!(ws.focused_panel_id, Some(1));
    assert!(!ws.remove_panel(42));
    assert_eq!(ws.panels.len(), 2);
}

#[test]
fn removing_only_panel_clears_focus() {
    let mut ws = workspace_with(&[5], 5);
    assert!(ws.remove_panel(5));
    assert_eq!(ws.focused_panel_id, None);
    assert!(ws.panels.is_empty());
}

#[test]
fn split_appends_and_focuses_new_panel() {
    let mut ws = Workspace::new();
    let first = ws.panels[0].id;
    let id = ws.split(SplitOrientation::Vertical, PanelType::Browser);
    assert_eq!(ws.panels.len(), 2);
    assert_eq!(ws.panels[0].id, first);
    assert_eq!(ws.panels[1].id, id);
    assert_eq!(ws.panels[1].panel_type, PanelType::Browser);
    assert_eq!(ws.panels[1].split, Some(SplitOrientation::Vertical));
    assert_eq!(ws.focused_panel_id, Some(id));
    assert_eq!(ws.panel(id).map(|p| p.id), Some(id));
    assert!(ws.panel(0).is_none());
}

#[test]
fn tab_manager_starts_with_one_selected_workspace() {
    let tm = TabManager::new();
    assert_eq!(tm.len(), 1);
    assert_eq!(tm.selected_index(), Some(0));
    assert!(!tm.is_empty());
    assert!(tm.get(1).is_none());
}

#[test]
fn add_workspace_selects_it() {
    let mut tm = TabManager::new();
    let ws = Workspace::new();
    let id = ws.id;
    tm.add_workspace(ws);
    assert_eq!(tm.selected_index(), Some(1));
    assert_eq!(tm.selected().map(|w| w.id), Some(id));
}

#[test]
fn select_out_of_range_changes_nothing() {
    let mut tm = TabManager::new();
    tm.add_workspace(Workspace::new());
    assert!(!tm.select(2));
    assert_eq!(tm.selected_index(), Some(1));
    assert!(tm.select(0));
    assert_eq!(tm.selected_index(), Some(0));
}

fn three_workspaces() -> (TabManager, [u128; 3]) {
    let mut tm = TabManager::new();
    tm.add_workspace(Workspace::new());
    tm.add_workspace(Workspace::new());
    let ids = [tm.get(0).unwrap().id, tm.get(1).unwrap().id, tm.get(2).unwrap().id];
    (tm, ids)
}

#[test]
fn removing_before_selection_keeps_selected_workspace() {
    let (mut tm, ids) = three_workspaces();
    assert!(tm.select(2));
    let removed = tm.remove(0).unwrap();
    assert_eq!(removed.id, ids[0]);
    assert_eq!(tm.selected_index(), Some(1));
    assert_eq!(tm.selected().unwrap().id, ids[2]);
}

#[test]
fn removing_selected_last_workspace_selects_new_last() {
    let (mut tm, ids) = three_workspaces();
    assert!(tm.remove(2).is_some());
    assert_eq!(tm.selected_index(), Some(1));
    assert_eq!(tm.selected().unwrap().id, ids[1]);
}

#[test]
fn removing_selected_middle_workspace_selects_its_successor() {
    let (mut tm, ids) = three_workspaces();
    assert!(tm.select(1));
    assert!(tm.remove(1).is_some());
    assert_eq!(tm.selected().unwrap().id, ids[2]);
}

#[test]
fn removing_out_of_range_or_everything() {
    let mut tm = TabManager::new();
    assert!(tm.remove(3).is_none());
    assert_eq!(tm.len(), 1);
    assert!(tm.remove(0).is_some());
    assert_eq!(tm.selected_index(), None);
    assert!(tm.selected().is_none());
    assert!(tm.is_empty());
}

#[test]
fn workspace_lookup_by_panel_and_id() {
    let (tm, ids) = three_workspaces();
    let panel = tm.get(1).unwrap().panels[0].id;
    assert_eq!(tm.workspace_index_with_panel(panel), Some(1));
    assert_eq!(tm.workspace_index_with_panel(0), None);
    assert_eq!(tm.workspace_index(ids[2]), Some(2));
    assert_eq!(tm.workspace_index(0), None);
    assert!(tm.has_terminal_panel(panel));
    assert!(!tm.has_terminal_panel(0));
}

#[test]
fn update_process_title_ignores_empty_titles() {
    let mut tm = TabManager::new();
    let panel = tm.focused_panel_id().unwrap();
    assert!(!tm.update_process_title(panel, String::new()));
    assert_eq!(tm.selected().unwrap().process_title, "Terminal");
    assert!(tm.update_process_title(panel, "vim".to_string()));
    assert_eq!(tm.selected().unwrap().process_title, "vim");
    // A non-empty title of an unknown panel still asks for a refresh.
    assert!(tm.update_process_title(1, "zsh".to_string()));
    assert_eq!(tm.selected().unwrap().process_title, "vim");
}

#[test]
fn rename_selected_sets_custom_title_unless_empty() {
    let mut tm = TabManager::new();
    assert!(!tm.rename_selected(String::new()));
    assert_eq!(tm.selected().unwrap().custom_title, None);
    assert!(tm.rename_selected("build".to_string()));
    assert_eq!(tm.selected().unwrap().display_title(), "build");
}

#[test]
fn split_selected_without_selection_does_nothing() {
    let mut tm = TabManager::new();
    tm.remove(0);
    assert_eq!(tm.split_selected(SplitOrientation::Horizontal, PanelType::Terminal), None);
}

#[test]
fn select_latest_unread_picks_newest_first_on_ties() {
    let (mut tm, ids) = three_workspaces();
    assert_eq!(tm.select_latest_unread(), None);
    assert_eq!(tm.selected_index(), Some(2));

    let mut a = Workspace::new();
    a.latest_unread = Some(7);
    let mut b = Workspace::new();
    b.latest_unread = Some(9);
    let mut c = Workspace::new();
    c.latest_unread = Some(9);
    let (a_id, b_id) = (a.id, b.id);
    tm.add_workspace(a);
    tm.add_workspace(b);
    tm.add_workspace(c);
    assert!(tm.select(0));
    assert_eq!(tm.select_latest_unread(), Some(b_id));
    assert_eq!(tm.selected_index(), Some(4));
    assert!(tm.mark_workspace_notifications_read(b_id));
    assert_eq!(tm.get(4).unwrap().latest_unread, None);
    assert!(!tm.mark_workspace_notifications_read(0));
    let _ = (ids, a_id);
}

#[test]
fn add_workspace_refuses_panel_ids_in_use() {
    let mut tm = TabManager::new();
    let used = tm.get(0).unwrap().panels[0].id;
    let mut clash = Workspace::new();
    clash.panels[0].id = used;
    assert!(!tm.add_workspace(clash));
    assert_eq!(tm.len(), 1);
    assert_eq!(tm.selected_index(), Some(0));

    let mut twice = Workspace::new();
    let dup = twice.panels[0].clone();
    twice.panels.push(dup);
    assert!(!tm.add_workspace(twice));
    assert_eq!(tm.len(), 1);

    assert!(tm.add_workspace(Workspace::new()));
    assert_eq!(tm.len(), 2);
}

#[test]
fn split_puts_the_new_panel_after_the_focused_one() {
    let mut ws = workspace_with(&[1, 2, 3], 1);
    let id = ws.split(SplitOrientation::Horizontal, PanelType::Terminal);
    let ids: Vec<u128> = ws.panels.iter().map(|p| p.id).collect();
    assert_eq!(ids, vec![1, id, 2, 3]);
    assert_eq!(ws.focused_panel_id, Some(id));

    let mut unfocused = workspace_with(&[1, 2], 9);
    let id = unfocused.split(SplitOrientation::Vertical, PanelType::Browser);
    let ids: Vec<u128> = unfocused.panels.iter().map(|p| p.id).collect();
    assert_eq!(ids, vec![1, 2, id]);
}

#[test]
fn split_selected_splits_the_focused_panel() {
    let mut tm = TabManager::new();
    let first = tm.focused_panel_id().unwrap();
    let second = tm.split_selected(SplitOrientation::Horizontal, PanelType::Terminal).unwrap();
    // The new panel has the focus, so the next split goes right after it.
    assert_eq!(tm.focused_panel_id(), Some(second));
    let third = tm.split_selected(SplitOrientation::Vertical, PanelType::Terminal).unwrap();
    let ids: Vec<u128> = tm.selected().unwrap().panels.iter().map(|p| p.id).collect();
    assert_eq!(ids, vec![first, second, third]);
    assert_eq!(tm.focused_panel_id(), Some(third));
}

#[test]
fn record_notification_marks_workspace_unread() {
    let mut tm = TabManager::new();
    let id = tm.get(0).unwrap().id;
    let panel = tm.focused_panel_id().unwrap();
    assert!(tm.record_notification(id, panel, 4));
    assert_eq!(tm.get(0).unwrap().latest_unread, Some(4));
    assert_eq!(tm.get(0).unwrap().attention_panel_id, Some(panel));
    assert!(!tm.record_notification(0, panel, 5));
}

#[test]
fn split_selected_with_id_splits_exactly_when_allowed() {
    let mut tm = TabManager::new();
    let first = tm.focused_panel_id().unwrap();
    // An id in use is refused and nothing changes.
    assert!(!tm.split_selected_with_id(first, SplitOrientation::Horizontal, PanelType::Terminal));
    assert_eq!(tm.selected().unwrap().panels.len(), 1);
    assert!(tm.split_selected_with_id(77, SplitOrientation::Vertical, PanelType::Browser));
    let ws = tm.selected().unwrap();
    let ids: Vec<u128> = ws.panels.iter().map(|p| p.id).collect();
    assert_eq!(ids, vec![first, 77]);
    assert_eq!(ws.panels[1].panel_type, PanelType::Browser);
    assert_eq!(ws.panels[1].split, Some(SplitOrientation::Vertical));
    assert_eq!(ws.focused_panel_id, Some(77));
    // With nothing selected there is nothing to split.
    tm.remove(0);
    assert!(!tm.split_selected_with_id(78, SplitOrientation::Vertical, PanelType::Terminal));
}

#[test]
fn split_selected_draws_v4_ids() {
    let mut tm = TabManager::new();
    let id = tm.split_selected(SplitOrientation::Horizontal, PanelType::Terminal).unwrap();
    assert_eq!(version_of(id), 4);
}
