//! Properties of the library that span several operations or states.

use vstd::prelude::*;

use crate::app::{panel_of, SharedState};
use crate::browser::{has_scheme_separator, normalized_url};
use crate::model::{
    any_where, first_where, is_latest_unread, lemma_any_where_first, lemma_first_where,
    live_terminal_ids, panel_closed, panel_has_id, panel_ids_unique, panel_removed,
    panel_split_off, selection_after_removal, split_position, workspace_has_id,
    workspace_has_panel, workspace_has_terminal, workspaces_marked_read, Panel, PanelType,
    SplitOrientation, Workspace,
};
use crate::notifications::Notification;
use crate::window::{jump_index, notifications_marked_read, selected_by_index};

verus! {

/// A split adds exactly one panel, which carries the requested direction and
/// type, has no directory yet, and takes the focus; every earlier panel is
/// kept.
pub proof fn law_split_records_direction(
    old: Workspace,
    new: Workspace,
    id: u128,
    orientation: SplitOrientation,
    panel_type: PanelType,
)
    requires
        panel_split_off(old, new, id, orientation, panel_type),
    ensures
        new.panels@.len() == old.panels@.len() + 1,
        new.panels@.contains(Panel { id, panel_type, directory: None, split: Some(orientation) }),
        new.focused_panel_id == Some(id),
        forall|x: Panel| old.panels@.contains(x) ==> new.panels@.contains(x),
{
    let pos = split_position(old);
    if let Some(f) = old.focused_panel_id {
        if any_where(old.panels@, panel_has_id(f)) {
            lemma_any_where_first(old.panels@, panel_has_id(f));
        }
    }
    assert(0 <= pos <= old.panels@.len());
    assert(new.panels@[pos] == (Panel { id, panel_type, directory: None, split: Some(orientation) }));
    assert forall|x: Panel| old.panels@.contains(x) implies new.panels@.contains(x) by {
        let i = choose|i: int| 0 <= i < old.panels@.len() && old.panels@[i] == x;
        let ni = if i < pos { i } else { i + 1 };
        assert(new.panels@[ni] == x);
    }
}

/// The jump shortcuts: slot k of 1 to 8 goes to the k-th workspace (index
/// k - 1), slot 9 to the last workspace, and slot 9 goes nowhere when there
/// is no workspace.
pub proof fn law_jump_targets(slot: u32, len: nat)
    requires
        1 <= slot <= 9,
    ensures
        slot <= 8 ==> jump_index(slot, len) == Some(slot - 1),
        slot == 9 && len > 0 ==> jump_index(slot, len) == Some(len - 1),
        slot == 9 && len == 0 ==> jump_index(slot, len) is None,
{
}

/// Selecting a workspace, when it changes the selection, selects it and
/// leaves nothing of it unread: its notifications in the store are read,
/// and the first workspace with its id (the workspace itself, when no
/// earlier one shares its id) has no unread notification. Workspaces with
/// other ids are untouched.
pub proof fn law_selecting_reads_the_workspace(old: SharedState, new: SharedState, index: int)
    requires
        selected_by_index(old, new, index, true),
    ensures
        ({
            let wss = old.tab_manager.workspaces_view();
            let nws = new.tab_manager.workspaces_view();
            let id = wss[index].id;
            let ns = new.notifications.notifications@;
            &&& 0 <= index < wss.len()
            &&& new.tab_manager.selected_view() == Some(index as usize)
            &&& nws.len() == wss.len()
            &&& forall|k: int|
                0 <= k <= index && wss[k].id == id && (forall|m: int| 0 <= m < k ==> wss[m].id != id)
                    ==> (#[trigger] nws[k]).latest_unread is None
            &&& forall|j: int| 0 <= j < wss.len() && wss[j].id != id ==> #[trigger] nws[j] == wss[j]
            &&& ns.len() == old.notifications.notifications@.len()
            &&& forall|i: int| 0 <= i < ns.len() && (#[trigger] ns[i]).workspace_id == id ==> ns[i].read
            &&& forall|i: int|
                0 <= i < ns.len() && (#[trigger] ns[i]).workspace_id != id ==> ns[i]
                    == old.notifications.notifications@[i]
        }),
{
    let wss = old.tab_manager.workspaces_view();
    let id = wss[index].id;
    assert(workspace_has_id(id)(wss[index]));
    lemma_any_where_first(wss, workspace_has_id(id));
    let f = first_where(wss, workspace_has_id(id));
    assert forall|k: int|
        0 <= k <= index && wss[k].id == id && (forall|m: int| 0 <= m < k ==> wss[m].id != id) implies
        (#[trigger] new.tab_manager.workspaces_view()[k]).latest_unread is None by {
        assert forall|m: int| 0 <= m < k implies !#[trigger] workspace_has_id(id)(wss[m]) by {
            assert(wss[m].id != id);
        }
        lemma_first_where(wss, workspace_has_id(id), k);
    }
}

/// The live terminals are exactly the terminal panels of all workspaces:
/// an id is live when some panel of some workspace has it and is a terminal.
pub proof fn law_live_terminals_are_all_terminals(wss: Seq<Workspace>, id: u128)
    ensures
        live_terminal_ids(wss).contains(id) <==> exists|i: int, a: int|
            0 <= i < wss.len() && 0 <= a < wss[i].panels@.len() && (#[trigger] wss[i].panels@[a]).id
                == id && wss[i].panels@[a].panel_type == PanelType::Terminal,
{
    if live_terminal_ids(wss).contains(id) {
        let i = choose|i: int| 0 <= i < wss.len() && #[trigger] workspace_has_terminal(id)(wss[i]);
        let a = choose|a: int|
            0 <= a < wss[i].panels@.len() && (#[trigger] wss[i].panels@[a]).id == id
                && wss[i].panels@[a].panel_type == PanelType::Terminal;
        assert(wss[i].panels@[a].id == id);
    }
    if exists|i: int, a: int|
        0 <= i < wss.len() && 0 <= a < wss[i].panels@.len() && (#[trigger] wss[i].panels@[a]).id
            == id && wss[i].panels@[a].panel_type == PanelType::Terminal {
        let (i, a) = choose|i: int, a: int|
            0 <= i < wss.len() && 0 <= a < wss[i].panels@.len() && (#[trigger] wss[i].panels@[a]).id
                == id && wss[i].panels@[a].panel_type == PanelType::Terminal;
        assert(crate::model::terminal_has_id(id)(wss[i].panels@[a]));
        assert(workspace_has_terminal(id)(wss[i]));
    }
}

/// Where no two panels share an id, the panel that input for an id goes to
/// is the one panel holding that id, with all its fields (its directory
/// among them).
pub proof fn law_panel_of_is_the_panel(wss: Seq<Workspace>, id: u128, i: int, a: int)
    requires
        panel_ids_unique(wss),
        0 <= i < wss.len(),
        0 <= a < wss[i].panels@.len(),
        wss[i].panels@[a].id == id,
    ensures
        panel_of(wss, id) == wss[i].panels@[a],
{
    assert(panel_has_id(id)(wss[i].panels@[a]));
    assert(workspace_has_panel(id)(wss[i]));
    lemma_any_where_first(wss, workspace_has_panel(id));
    let k = first_where(wss, workspace_has_panel(id));
    let w = wss[k];
    lemma_any_where_first(w.panels@, panel_has_id(id));
    let q = first_where(w.panels@, panel_has_id(id));
    assert(wss[k].panels@[q].id == wss[i].panels@[a].id);
}

/// Two workspaces agree field by field, their panel lists by contents.
pub open spec fn same_workspace(a: Workspace, b: Workspace) -> bool {
    &&& a.id == b.id
    &&& a.panels@ == b.panels@
    &&& a.focused_panel_id == b.focused_panel_id
    &&& a.attention_panel_id == b.attention_panel_id
    &&& a.custom_title == b.custom_title
    &&& a.process_title == b.process_title
    &&& a.latest_unread == b.latest_unread
}

/// Closing a panel depends on the tab manager and the panel id alone: any
/// two results that `AppState::close_panel` allows (whatever its
/// `process_alive` flag, which its contract does not mention) agree on the
/// selection and, workspace by workspace, on every field. The widget cache
/// is likewise fixed, as the old cache without the panel.
pub proof fn law_closing_is_determined(
    wss: Seq<Workspace>,
    sel: Option<usize>,
    new_wss1: Seq<Workspace>,
    new_sel1: Option<usize>,
    new_wss2: Seq<Workspace>,
    new_sel2: Option<usize>,
    id: u128,
)
    requires
        any_where(wss, workspace_has_panel(id)),
        panel_closed(wss, sel, new_wss1, new_sel1, id),
        panel_closed(wss, sel, new_wss2, new_sel2, id),
    ensures
        new_sel1 == new_sel2,
        new_wss1.len() == new_wss2.len(),
        forall|j: int| 0 <= j < new_wss1.len() ==> same_workspace(#[trigger] new_wss1[j], new_wss2[j]),
{
    let k = first_where(wss, workspace_has_panel(id));
    if wss[k].panels@.len() != 1 {
        assert forall|j: int| 0 <= j < new_wss1.len() implies same_workspace(#[trigger] new_wss1[j], new_wss2[j]) by {
            if j != k {
                assert(new_wss1[j] == wss[j]);
                assert(new_wss2[j] == wss[j]);
            } else {
                assert(panel_removed(wss[k], new_wss1[k], id));
                assert(panel_removed(wss[k], new_wss2[k], id));
            }
        }
    }
}

/// The focus of the workspace is on one of its panels, or nowhere.
pub open spec fn focus_on_a_panel(ws: Workspace) -> bool {
    match ws.focused_panel_id {
        Some(f) => any_where(ws.panels@, panel_has_id(f)),
        None => true,
    }
}

/// In a well-formed tab manager, where no two panels share an id, closing a
/// panel leaves no workspace holding it.
pub proof fn law_closed_panel_is_gone(
    wss: Seq<Workspace>,
    sel: Option<usize>,
    new_wss: Seq<Workspace>,
    new_sel: Option<usize>,
    id: u128,
)
    requires
        any_where(wss, workspace_has_panel(id)),
        panel_ids_unique(wss),
        panel_closed(wss, sel, new_wss, new_sel, id),
    ensures
        !any_where(new_wss, workspace_has_panel(id)),
{
    lemma_any_where_first(wss, workspace_has_panel(id));
    let k = first_where(wss, workspace_has_panel(id));
    let ws = wss[k];
    assert(any_where(ws.panels@, panel_has_id(id)));
    let wa = choose|a: int| 0 <= a < ws.panels@.len() && #[trigger] panel_has_id(id)(ws.panels@[a]);
    lemma_any_where_first(ws.panels@, panel_has_id(id));
    let kp = first_where(ws.panels@, panel_has_id(id));
    if any_where(new_wss, workspace_has_panel(id)) {
        let j = choose|j: int| 0 <= j < new_wss.len() && #[trigger] workspace_has_panel(id)(new_wss[j]);
        let nw = new_wss[j];
        let b = choose|b: int| 0 <= b < nw.panels@.len() && #[trigger] panel_has_id(id)(nw.panels@[b]);
        if ws.panels@.len() == 1 {
            let oj = if j < k { j } else { j + 1 };
            assert(new_wss[j] == wss[oj]);
            assert(wss[oj].panels@[b].id == id);
            assert(ws.panels@[wa].id == id);
            assert(false);
        } else if j != k {
            assert(new_wss[j] == wss[j]);
            assert(wss[j].panels@[b].id == id);
            assert(ws.panels@[wa].id == id);
            assert(false);
        } else {
            assert(panel_removed(ws, nw, id));
            let ob = if b < kp { b } else { b + 1 };
            assert(nw.panels@[b] == ws.panels@[ob]);
            assert(ws.panels@[ob].id == id);
            assert(ws.panels@[kp].id == id);
            assert(false);
        }
    }
}

/// Closing a panel keeps the focus of its workspace on one of its panels.
pub proof fn law_focus_stays_on_a_panel(old: Workspace, new: Workspace, id: u128)
    requires
        any_where(old.panels@, panel_has_id(id)),
        panel_removed(old, new, id),
        focus_on_a_panel(old),
    ensures
        focus_on_a_panel(new),
{
    lemma_any_where_first(old.panels@, panel_has_id(id));
    let kp = first_where(old.panels@, panel_has_id(id));
    match old.focused_panel_id {
        Some(f) => {
            if f == id {
                if new.panels@.len() > 0 {
                    let nf = new.focused_panel_id->0;
                    let m = if kp < new.panels@.len() { kp } else { new.panels@.len() - 1 };
                    assert(panel_has_id(nf)(new.panels@[m]));
                }
            } else {
                let m = choose|m: int| 0 <= m < old.panels@.len() && #[trigger] panel_has_id(f)(old.panels@[m]);
                assert(m != kp);
                let nm = if m < kp { m } else { m - 1 };
                assert(new.panels@[nm] == old.panels@[m]);
                assert(panel_has_id(f)(new.panels@[nm]));
            }
        },
        None => {},
    }
}

/// Removing a workspace other than the selected one keeps the same
/// workspace selected.
pub proof fn law_removal_keeps_selected_workspace(wss: Seq<Workspace>, s: usize, index: int)
    requires
        0 <= index < wss.len(),
        s < wss.len(),
        index != s,
    ensures
        selection_after_removal(Some(s), index, wss.len() - 1) is Some,
        wss.remove(index)[selection_after_removal(Some(s), index, wss.len() - 1)->0 as int]
            == wss[s as int],
{
}

/// Marking a workspace read leaves no unread notification of it, in the
/// store or in the workspace, and changes nothing else.
pub proof fn law_marked_read_leaves_nothing_unread(
    ns: Seq<Notification>,
    wss: Seq<Workspace>,
    id: u128,
)
    ensures
        notifications_marked_read(ns, id).len() == ns.len(),
        forall|i: int|
            0 <= i < ns.len() && ns[i].workspace_id == id ==> #[trigger] notifications_marked_read(
                ns,
                id,
            )[i].read,
        forall|i: int|
            0 <= i < ns.len() && ns[i].workspace_id != id ==> #[trigger] notifications_marked_read(
                ns,
                id,
            )[i] == ns[i],
        any_where(wss, workspace_has_id(id)) ==> workspaces_marked_read(wss, id)[first_where(
            wss,
            workspace_has_id(id),
        )].latest_unread is None,
{
    if any_where(wss, workspace_has_id(id)) {
        lemma_any_where_first(wss, workspace_has_id(id));
    }
}

/// When every workspace's unread number comes from the store (is below the
/// store's length), the workspace that just received a notification is the
/// one that jumping to the latest unread notification selects.
pub proof fn law_new_notification_is_latest_unread(wss: Seq<Workspace>, store_len: nat, k: int, panel_id: u128)
    requires
        0 <= k < wss.len(),
        store_len < u64::MAX,
        forall|i: int|
            0 <= i < wss.len() && (#[trigger] wss[i].latest_unread) is Some ==> wss[i].latest_unread->0
                < store_len,
    ensures
        is_latest_unread(
            wss.update(
                k,
                (Workspace {
                    latest_unread: Some(store_len as u64),
                    attention_panel_id: Some(panel_id),
                    ..wss[k]
                }),
            ),
            k,
        ),
{
    let n = wss.update(
        k,
        (Workspace { latest_unread: Some(store_len as u64), attention_panel_id: Some(panel_id), ..wss[k] }),
    );
    assert forall|j: int| 0 <= j < n.len() && j != k && (#[trigger] n[j].latest_unread) is Some implies n[j].latest_unread->0
        < n[k].latest_unread->0 by {
        assert(n[j] == wss[j]);
    }
}

/// Normalizing a URL twice gives what normalizing it once gave.
pub proof fn law_normalized_url_is_stable(s: Seq<char>)
    requires
        normalized_url(s) is Some,
    ensures
        normalized_url(normalized_url(s)->0) == normalized_url(s),
{
    if !has_scheme_separator(s) {
        reveal_strlit("https://");
        let t = "https://"@ + s;
        assert(t[5] == ':' && t[6] == '/' && t[7] == '/');
        assert(has_scheme_separator(t));
    }
}

} // verus!
