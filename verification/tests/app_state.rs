use cmux::app::{AppState, SharedState, UiEvent};
use cmux::model::{PanelType, SplitOrientation, Workspace};

#[test]
fn close_panel_removes_last_workspace() {
    let shared = SharedState::new();
    let mut state: AppState<u32> = AppState::new(shared);
    let panel_id = state
        .shared
        .tab_manager
        .selected()
        .and_then(|workspace| workspace.focused_panel_id)
        .expect("workspace should have a focused panel");

    assert!(state.close_panel(panel_id, false));
    assert!(state.shared.tab_manager.is_empty());
}

#[test]
fn close_panel_returns_false_for_unknown_panel() {
    let mut state: AppState<u32> = AppState::new(SharedState::new());
    assert!(!state.close_panel(uuid::Uuid::new_v4().as_u128(), true));
}

#[test]
fn close_panel_keeps_workspace_with_other_panels_and_drops_widget() {
    let mut state: AppState<u32> = AppState::new(SharedState::new());
    let first = state.shared.tab_manager.focused_panel_id().unwrap();
    let second = state
        .shared
        .tab_manager
        .split_selected(SplitOrientation::Horizontal, PanelType::Terminal)
        .unwrap();
    state.terminal_for(first, || 1);
    state.terminal_for(second, || 2);

    assert!(state.close_panel(second, true));
    assert_eq!(state.shared.tab_manager.len(), 1);
    let ws = state.shared.tab_manager.selected().unwrap();
    assert_eq!(ws.panels.len(), 1);
    assert_eq!(ws.panels[0].id, first);
    // The focus was on the closed panel and moves to the one left.
    assert_eq!(ws.focused_panel_id, Some(first));
    assert_eq!(state.terminal_cache.widgets.get(&second), None);
    assert_eq!(state.terminal_cache.widgets.get(&first), Some(&1));
}

#[test]
fn close_panel_removes_emptied_workspace_and_moves_selection() {
    let mut state: AppState<u32> = AppState::new(SharedState::new());
    state.shared.tab_manager.add_workspace(Workspace::new());
    state.shared.tab_manager.add_workspace(Workspace::new());
    // Workspaces 0, 1, 2; the last one is selected.
    assert_eq!(state.shared.tab_manager.selected_index(), Some(2));
    let last_panel = state.shared.tab_manager.focused_panel_id().unwrap();
    assert!(state.close_panel(last_panel, false));
    assert_eq!(state.shared.tab_manager.len(), 2);
    assert_eq!(state.shared.tab_manager.selected_index(), Some(1));
}

#[test]
fn terminal_for_reuses_the_cached_widget() {
    let mut state: AppState<String> = AppState::new(SharedState::new());
    let panel = state.shared.tab_manager.focused_panel_id().unwrap();
    assert_eq!(state.terminal_for(panel, || "first".to_string()), "first");
    // A second call does not make a new widget.
    assert_eq!(state.terminal_for(panel, || "second".to_string()), "first");
    assert_eq!(state.terminal_cache.widgets.get(&panel).map(|s| s.as_str()), Some("first"));
}

#[test]
fn terminal_for_input_spawns_in_the_panel_directory() {
    let mut state: AppState<String> = AppState::new(SharedState::new());
    let panel = state.shared.tab_manager.focused_panel_id().unwrap();
    let made = state
        .terminal_for_input(panel, |dir| format!("shell in {:?}", dir))
        .cloned();
    assert_eq!(made, Some("shell in None".to_string()));
    // Now it is cached: the spawn function is not called again.
    let again = state.terminal_for_input(panel, |_| "other".to_string()).cloned();
    assert_eq!(again, Some("shell in None".to_string()));
}

#[test]
fn terminal_for_input_refuses_unknown_and_browser_panels() {
    let mut state: AppState<String> = AppState::new(SharedState::new());
    assert!(state.terminal_for_input(12345, |_| "x".to_string()).is_none());
    let browser = state
        .shared
        .tab_manager
        .split_selected(SplitOrientation::Vertical, PanelType::Browser)
        .unwrap();
    assert!(state.terminal_for_input(browser, |_| "x".to_string()).is_none());
    assert_eq!(state.terminal_cache.widgets.get(&browser), None);
}

#[test]
fn prune_drops_widgets_of_closed_and_browser_panels() {
    let mut state: AppState<u32> = AppState::new(SharedState::new());
    let terminal = state.shared.tab_manager.focused_panel_id().unwrap();
    let browser = state
        .shared
        .tab_manager
        .split_selected(SplitOrientation::Horizontal, PanelType::Browser)
        .unwrap();
    state.terminal_for(terminal, || 1);
    state.terminal_for(browser, || 2);
    state.terminal_for(777, || 3);
    state.prune_terminal_cache();
    assert_eq!(state.terminal_cache.widgets.get(&terminal), Some(&1));
    assert_eq!(state.terminal_cache.widgets.get(&browser), None);
    assert_eq!(state.terminal_cache.widgets.get(&777), None);
    assert_eq!(state.terminal_cache.widgets.len(), 1);
}

#[test]
fn focused_terminal_follows_the_selection() {
    let mut state: AppState<u32> = AppState::new(SharedState::new());
    assert_eq!(state.focused_terminal(), None);
    let panel = state.shared.tab_manager.focused_panel_id().unwrap();
    state.terminal_for(panel, || 9);
    assert_eq!(state.focused_terminal(), Some(&9));
    state.shared.tab_manager.add_workspace(Workspace::new());
    assert_eq!(state.focused_terminal(), None);
}

#[test]
fn close_focused_panel_closes_the_selected_workspace_focus() {
    let mut state: AppState<u32> = AppState::new(SharedState::new());
    assert!(state.close_focused_panel());
    assert!(state.shared.tab_manager.is_empty());
    assert!(!state.close_focused_panel());
}

#[test]
fn ui_events_clone_and_compare_by_debug() {
    let e = UiEvent::SendInput { panel_id: 3, text: "ls\n".to_string() };
    assert_eq!(format!("{:?}", e.clone()), format!("{:?}", e));
}

#[test]
fn closed_panel_is_found_nowhere() {
    let mut state: AppState<u32> = AppState::new(SharedState::new());
    let first = state.shared.tab_manager.focused_panel_id().unwrap();
    let second = state
        .shared
        .tab_manager
        .split_selected(SplitOrientation::Vertical, PanelType::Terminal)
        .unwrap();
    assert!(state.close_panel(first, true));
    assert_eq!(state.shared.tab_manager.workspace_index_with_panel(first), None);
    assert_eq!(state.shared.tab_manager.workspace_index_with_panel(second), Some(0));
    assert!(!state.close_panel(first, true));
}

fn fixed_state() -> AppState<u32> {
    let mut shared = SharedState::new();
    shared.tab_manager.remove(0);
    let mut ws = Workspace::new();
    ws.id = 10;
    ws.panels[0].id = 11;
    ws.focused_panel_id = Some(11);
    assert!(shared.tab_manager.add_workspace(ws));
    assert!(shared
        .tab_manager
        .split_selected_with_id(12, SplitOrientation::Horizontal, PanelType::Terminal));
    let mut state = AppState::new(shared);
    state.terminal_for(11, || 1);
    state.terminal_for(12, || 2);
    state
}

fn summary(state: &AppState<u32>) -> (Option<usize>, Vec<(u128, Vec<u128>, Option<u128>)>, Vec<u128>) {
    let tm = &state.shared.tab_manager;
    let wss = (0..tm.len())
        .map(|i| {
            let ws = tm.get(i).unwrap();
            (ws.id, ws.panels.iter().map(|p| p.id).collect(), ws.focused_panel_id)
        })
        .collect();
    let mut cached: Vec<u128> = state.terminal_cache.widgets.keys().copied().collect();
    cached.sort();
    (tm.selected_index(), wss, cached)
}

#[test]
fn closing_does_not_depend_on_process_liveness() {
    let mut alive = fixed_state();
    let mut exited = fixed_state();
    assert_eq!(summary(&alive), summary(&exited));
    assert!(alive.close_panel(12, true));
    assert!(exited.close_panel(12, false));
    assert_eq!(summary(&alive), summary(&exited));
    assert_eq!(summary(&alive), (Some(0), vec![(10, vec![11], Some(11))], vec![11]));
}
