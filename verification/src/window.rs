//! What the window's actions and its event loop decide: selecting,
//! jumping to and closing workspaces, marking notifications read, and
//! whether a batch of events calls for a refresh.

use vstd::prelude::*;

use crate::app::{SharedState, UiEvent};
use crate::model::{is_latest_unread, none_unread, selection_after_removal, workspaces_marked_read};
use crate::notifications::{read_if_in, Notification};

verus! {

/// The notifications with those of the given workspace marked as read.
pub open spec fn notifications_marked_read(ns: Seq<Notification>, workspace_id: u128) -> Seq<
    Notification,
> {
    ns.map_values(|n: Notification| read_if_in(n, workspace_id))
}

/// `new` is `old` with the notifications of the given workspace read, in
/// the store and in the first workspace of that id.
pub open spec fn marked_read(old: SharedState, new: SharedState, workspace_id: u128) -> bool {
    &&& new.notifications.notifications@ == notifications_marked_read(
        old.notifications.notifications@,
        workspace_id,
    )
    &&& new.tab_manager.workspaces_view() == workspaces_marked_read(
        old.tab_manager.workspaces_view(),
        workspace_id,
    )
    &&& new.tab_manager.selected_view() == old.tab_manager.selected_view()
}

/// Marks the notifications of a workspace as read: in the notification
/// store and in the workspace itself.
pub fn mark_workspace_read(shared: &mut SharedState, workspace_id: u128)
    requires
        old(shared).wf(),
    ensures
        final(shared).wf(),
        marked_read(*old(shared), *final(shared), workspace_id),
{
    shared.notifications.mark_workspace_read(workspace_id);
    shared.tab_manager.mark_workspace_notifications_read(workspace_id);
}

/// The effect of selecting the workspace at `index`: the selection changes
/// exactly when there is such a workspace and it is not already selected;
/// then it becomes selected and its notifications are marked read; else
/// nothing changes.
pub open spec fn selected_by_index(old: SharedState, new: SharedState, index: int, changed: bool) -> bool {
    let wss = old.tab_manager.workspaces_view();
    &&& changed == (0 <= index < wss.len() && old.tab_manager.selected_view() != Some(index as usize))
    &&& changed ==> {
        &&& new.tab_manager.selected_view() == Some(index as usize)
        &&& new.notifications.notifications@ == notifications_marked_read(
            old.notifications.notifications@,
            wss[index].id,
        )
        &&& new.tab_manager.workspaces_view() == workspaces_marked_read(wss, wss[index].id)
    }
    &&& !changed ==> new == old
}

/// Selects the workspace at `index` and marks its notifications read.
/// Returns true only when this changed the selection: false when there is
/// no such workspace or it was already selected.
pub fn select_workspace_by_index(shared: &mut SharedState, index: usize) -> (changed: bool)
    requires
        old(shared).wf(),
    ensures
        final(shared).wf(),
        selected_by_index(*old(shared), *final(shared), index as int, changed),
        ({
            let wss = old(shared).tab_manager.workspaces_view();
            let ns = final(shared).notifications.notifications@;
            &&& changed == (index < wss.len() && old(shared).tab_manager.selected_view() != Some(index))
            &&& changed ==> final(shared).tab_manager.selected_view() == Some(index)
            &&& changed && (forall|m: int| 0 <= m < index ==> wss[m].id != wss[index as int].id)
                ==> final(shared).tab_manager.workspaces_view()[index as int].latest_unread is None
            &&& changed ==> forall|i: int|
                0 <= i < ns.len() && (#[trigger] ns[i]).workspace_id == wss[index as int].id
                    ==> ns[i].read
        }),
        !changed ==> *final(shared) == *old(shared),
{
    let already_selected = match shared.tab_manager.selected_index() {
        Some(s) => s == index,
        None => false,
    };
    if already_selected {
        return false;
    }
    let selected = shared.tab_manager.select(index);
    if !selected {
        return false;
    }
    let workspace_id = shared.tab_manager.get(index).unwrap().id;
    mark_workspace_read(shared, workspace_id);
    proof {
        crate::laws::law_selecting_reads_the_workspace(*old(shared), *shared, index as int);
    }
    true
}

/// Selects the workspace of a sidebar row; a negative row selects nothing.
pub fn select_workspace_by_row(shared: &mut SharedState, row: i32) -> (changed: bool)
    requires
        old(shared).wf(),
    ensures
        final(shared).wf(),
        row < 0 ==> !changed && *final(shared) == *old(shared),
        row >= 0 ==> selected_by_index(*old(shared), *final(shared), row as int, changed),
{
    if row < 0 {
        return false;
    }
    select_workspace_by_index(shared, row as usize)
}

/// The workspace that the jump shortcut of `slot` (1 to 9) goes to: slots 1
/// to 8 go to the workspace at that position, slot 9 to the last one.
pub open spec fn jump_index(slot: u32, len: nat) -> Option<int> {
    if slot == 9 {
        if len > 0 {
            Some(len - 1)
        } else {
            None
        }
    } else {
        Some(slot - 1)
    }
}

/// Jumps to the workspace of a shortcut slot (1 to 9) and marks its
/// notifications read; says whether the selection changed.
pub fn jump_to_workspace(shared: &mut SharedState, slot: u32) -> (changed: bool)
    requires
        old(shared).wf(),
        1 <= slot <= 9,
    ensures
        final(shared).wf(),
        match jump_index(slot, old(shared).tab_manager.workspaces_view().len()) {
            None => !changed && *final(shared) == *old(shared),
            Some(i) => selected_by_index(*old(shared), *final(shared), i, changed),
        },
        ({
            let len = old(shared).tab_manager.workspaces_view().len();
            let sel = old(shared).tab_manager.selected_view();
            &&& slot <= 8 ==> changed == (slot - 1 < len && sel != Some((slot - 1) as usize))
            &&& slot <= 8 && changed ==> final(shared).tab_manager.selected_view() == Some(
                (slot - 1) as usize,
            )
            &&& slot == 9 && len > 0 ==> changed == (sel != Some((len - 1) as usize))
            &&& slot == 9 && changed ==> final(shared).tab_manager.selected_view() == Some(
                (len - 1) as usize,
            )
            &&& slot == 9 && len == 0 ==> !changed && *final(shared) == *old(shared)
        }),
{
    let target = if slot == 9 {
        let len = shared.tab_manager.len();
        if len > 0 {
            len - 1
        } else {
            return false;
        }
    } else {
        (slot - 1) as usize
    };
    select_workspace_by_index(shared, target)
}

/// Selects the workspace with the newest unread notification and marks its
/// notifications read; says whether there was one.
pub fn select_latest_unread(shared: &mut SharedState) -> (found: bool)
    requires
        old(shared).wf(),
    ensures
        final(shared).wf(),
        ({
            let wss = old(shared).tab_manager.workspaces_view();
            &&& found == !none_unread(wss)
            &&& !found ==> *final(shared) == *old(shared)
            &&& found ==> {
                let s = final(shared).tab_manager.selected_view();
                &&& s is Some
                &&& is_latest_unread(wss, s->0 as int)
                &&& final(shared).notifications.notifications@ == notifications_marked_read(
                    old(shared).notifications.notifications@,
                    wss[s->0 as int].id,
                )
                &&& final(shared).tab_manager.workspaces_view() == workspaces_marked_read(
                    wss,
                    wss[s->0 as int].id,
                )
            }
        }),
{
    let workspace_id = match shared.tab_manager.select_latest_unread() {
        Some(id) => id,
        None => return false,
    };
    mark_workspace_read(shared, workspace_id);
    true
}

/// Closes the selected workspace, if there is one.
pub fn close_selected_workspace(shared: &mut SharedState)
    requires
        old(shared).wf(),
    ensures
        final(shared).wf(),
        final(shared).notifications == old(shared).notifications,
        ({
            let wss = old(shared).tab_manager.workspaces_view();
            match old(shared).tab_manager.selected_view() {
                Some(s) => {
                    &&& final(shared).tab_manager.workspaces_view() == wss.remove(s as int)
                    &&& final(shared).tab_manager.selected_view() == selection_after_removal(
                        Some(s),
                        s as int,
                        wss.len() - 1,
                    )
                },
                None => *final(shared) == *old(shared),
            }
        }),
{
    match shared.tab_manager.selected_index() {
        Some(index) => {
            let _ = shared.tab_manager.remove(index);
        },
        None => {},
    }
}

/// The event calls for the window to be rebuilt.
pub open spec fn calls_for_refresh(event: UiEvent) -> bool {
    event is Refresh || event is BrowserOpen
}

/// Whether a batch of events, drained from the channel together, calls for
/// one refresh of the window once all of them are handled.
pub fn batch_needs_refresh(events: &Vec<UiEvent>) -> (refresh: bool)
    ensures
        refresh == exists|i: int| 0 <= i < events@.len() && calls_for_refresh(#[trigger] events@[i]),
{
    let mut refresh = false;
    let mut i: usize = 0;
    while i < events.len()
        invariant
            i <= events@.len(),
            refresh == exists|j: int| 0 <= j < i && calls_for_refresh(#[trigger] events@[j]),
        decreases events@.len() - i,
    {
        match &events[i] {
            UiEvent::Refresh => refresh = true,
            UiEvent::BrowserOpen { .. } => refresh = true,
            _ => {},
        }
        assert(calls_for_refresh(events@[i as int]) ==> refresh);
        i += 1;
    }
    refresh
}

} // verus!
