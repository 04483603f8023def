//! The workspace model: panels, workspaces and the tab manager that holds
//! them in sidebar order together with the current selection.

use vstd::prelude::*;

use crate::ids::{fresh_id, is_v4_uuid};

verus! {

/// What a panel shows.
#[derive(Clone, Copy, Debug, PartialEq, Eq, Structural)]
pub enum PanelType {
    Terminal,
    Browser,
}

/// The direction in which a panel was split off its neighbour.
#[derive(Clone, Copy, Debug, PartialEq, Eq, Structural)]
pub enum SplitOrientation {
    Horizontal,
    Vertical,
}

/// One pane of a workspace.
#[derive(Clone, Debug)]
pub struct Panel {
    pub id: u128,
    pub panel_type: PanelType,
    /// Working directory of a terminal, or the initial URL of a browser.
    pub directory: Option<String>,
    /// How this panel was split off the panel before it (`None` for the first).
    pub split: Option<SplitOrientation>,
}

/// A workspace: a sidebar entry holding panels in layout order.
#[derive(Clone, Debug)]
pub struct Workspace {
    pub id: u128,
    pub panels: Vec<Panel>,
    pub focused_panel_id: Option<u128>,
    /// The panel that raised the most recent notification, highlighted in the layout.
    pub attention_panel_id: Option<u128>,
    /// A title chosen by the user.
    pub custom_title: Option<String>,
    /// The title reported by the focused terminal's shell.
    pub process_title: String,
    /// Sequence number of the newest unread notification of this workspace.
    pub latest_unread: Option<u64>,
}

// ---------------------------------------------------------------------------
// Searching sequences
// ---------------------------------------------------------------------------

/// Some element of `s` satisfies `f`.
pub open spec fn any_where<A>(s: Seq<A>, f: spec_fn(A) -> bool) -> bool {
    exists|k: int| 0 <= k < s.len() && #[trigger] f(s[k])
}

/// `k` is the first index of `s` whose element satisfies `f`.
pub open spec fn is_first_where<A>(s: Seq<A>, f: spec_fn(A) -> bool, k: int) -> bool {
    &&& 0 <= k < s.len()
    &&& f(s[k])
    &&& forall|j: int| 0 <= j < k ==> !#[trigger] f(s[j])
}

/// The first index of `s` whose element satisfies `f` (meaningful when there is one).
pub open spec fn first_where<A>(s: Seq<A>, f: spec_fn(A) -> bool) -> int {
    choose|k: int| is_first_where(s, f, k)
}

/// The first index satisfying a predicate is unique.
pub proof fn lemma_first_where<A>(s: Seq<A>, f: spec_fn(A) -> bool, k: int)
    requires
        is_first_where(s, f, k),
    ensures
        first_where(s, f) == k,
        any_where(s, f),
{
    assert(exists|i: int| is_first_where(s, f, i));
    let c = first_where(s, f);
    assert(is_first_where(s, f, c));
    if c < k {
        assert(!f(s[c]));
    } else if k < c {
        assert(!f(s[k]));
    }
    assert(f(s[k]));
}

/// When some element satisfies a predicate, there is a first one.
pub proof fn lemma_any_where_first<A>(s: Seq<A>, f: spec_fn(A) -> bool)
    requires
        any_where(s, f),
    ensures
        is_first_where(s, f, first_where(s, f)),
    decreases s.len(),
{
    let w = choose|k: int| 0 <= k < s.len() && #[trigger] f(s[k]);
    if f(s[0]) {
        lemma_first_where(s, f, 0);
    } else {
        let t = s.drop_first();
        assert(f(t[w - 1]));
        lemma_any_where_first(t, f);
        let c = first_where(t, f);
        assert forall|j: int| 0 <= j < c + 1 implies !#[trigger] f(s[j]) by {
            if j > 0 {
                assert(s[j] == t[j - 1]);
            }
        }
        lemma_first_where(s, f, c + 1);
    }
}

/// The panel has the given id.
pub open spec fn panel_has_id(id: u128) -> spec_fn(Panel) -> bool {
    |p: Panel| p.id == id
}

/// The panel is a terminal with the given id.
pub open spec fn terminal_has_id(id: u128) -> spec_fn(Panel) -> bool {
    |p: Panel| p.id == id && p.panel_type == PanelType::Terminal
}

/// The workspace holds a panel with the given id.
pub open spec fn workspace_has_panel(id: u128) -> spec_fn(Workspace) -> bool {
    |w: Workspace| any_where(w.panels@, panel_has_id(id))
}

/// The workspace has the given id.
pub open spec fn workspace_has_id(id: u128) -> spec_fn(Workspace) -> bool {
    |w: Workspace| w.id == id
}

/// The workspace holds a terminal panel with the given id.
pub open spec fn workspace_has_terminal(id: u128) -> spec_fn(Workspace) -> bool {
    |w: Workspace| any_where(w.panels@, terminal_has_id(id))
}

/// Ids of the terminal panels of all workspaces.
pub open spec fn live_terminal_ids(wss: Seq<Workspace>) -> Set<u128> {
    Set::new(|id: u128| any_where(wss, workspace_has_terminal(id)))
}

fn find_panel(panels: &Vec<Panel>, id: u128) -> (r: Option<usize>)
    ensures
        match r {
            Some(k) => is_first_where(panels@, panel_has_id(id), k as int),
            None => !any_where(panels@, panel_has_id(id)),
        },
{
    let mut i: usize = 0;
    while i < panels.len()
        invariant
            i <= panels@.len(),
            forall|j: int| 0 <= j < i ==> !#[trigger] panel_has_id(id)(panels@[j]),
        decreases panels@.len() - i,
    {
        if panels[i].id == id {
            return Some(i);
        }
        i += 1;
    }
    None
}

// ---------------------------------------------------------------------------
// Workspaces
// ---------------------------------------------------------------------------

/// Where the focus goes when the panel at index `k` is removed: a focus on
/// another panel stays; a focus on the removed panel moves to the panel that
/// took its place, or to the new last panel, or nowhere when none is left.
pub open spec fn focus_after_removal(
    focus: Option<u128>,
    removed: u128,
    k: int,
    remaining: Seq<Panel>,
) -> Option<u128> {
    if focus == Some(removed) {
        if remaining.len() == 0 {
            None
        } else if k < remaining.len() {
            Some(remaining[k].id)
        } else {
            Some(remaining[remaining.len() - 1].id)
        }
    } else {
        focus
    }
}

/// `new` is `old` with the first panel of id `id` removed.
pub open spec fn panel_removed(old: Workspace, new: Workspace, id: u128) -> bool {
    let k = first_where(old.panels@, panel_has_id(id));
    &&& new.id == old.id
    &&& new.panels@ == old.panels@.remove(k)
    &&& new.focused_panel_id == focus_after_removal(old.focused_panel_id, id, k, new.panels@)
    &&& new.attention_panel_id == (if old.attention_panel_id == Some(id) {
        None
    } else {
        old.attention_panel_id
    })
    &&& new.custom_title == old.custom_title
    &&& new.process_title == old.process_title
    &&& new.latest_unread == old.latest_unread
}

/// Where a split puts the new panel: right after the focused panel, or last
/// when no panel has the focus.
pub open spec fn split_position(ws: Workspace) -> int {
    match ws.focused_panel_id {
        Some(f) => if any_where(ws.panels@, panel_has_id(f)) {
            first_where(ws.panels@, panel_has_id(f)) + 1
        } else {
            ws.panels@.len() as int
        },
        None => ws.panels@.len() as int,
    }
}

/// `new` is `old` with a new panel of id `id`, split off the focused panel
/// in the given direction, placed after it, and focused.
pub open spec fn panel_split_off(
    old: Workspace,
    new: Workspace,
    id: u128,
    orientation: SplitOrientation,
    panel_type: PanelType,
) -> bool {
    &&& new.panels@ == old.panels@.insert(
        split_position(old),
        (Panel { id, panel_type, directory: None, split: Some(orientation) }),
    )
    &&& new.focused_panel_id == Some(id)
    &&& new.id == old.id
    &&& new.attention_panel_id == old.attention_panel_id
    &&& new.custom_title == old.custom_title
    &&& new.process_title == old.process_title
    &&& new.latest_unread == old.latest_unread
}

/// `ws` is a workspace as `Workspace::new` makes it: one terminal panel,
/// focused, in no directory, titled "Terminal", with nothing unread, and
/// version 4 UUIDs as the ids of the workspace and of its panel.
pub open spec fn is_fresh_workspace(ws: Workspace) -> bool {
    &&& is_v4_uuid(ws.id)
    &&& is_v4_uuid(ws.panels@[0].id)
    &&& ws.panels@.len() == 1
    &&& ws.panels@[0].panel_type == PanelType::Terminal
    &&& ws.panels@[0].directory is None
    &&& ws.panels@[0].split is None
    &&& ws.focused_panel_id == Some(ws.panels@[0].id)
    &&& ws.attention_panel_id is None
    &&& ws.custom_title is None
    &&& ws.process_title@ == "Terminal"@
    &&& ws.latest_unread is None
}

/// The title shown for a workspace: the user's title if there is one, else
/// the shell's.
pub open spec fn display_title_of(ws: Workspace) -> Seq<char> {
    match ws.custom_title {
        Some(t) => t@,
        None => ws.process_title@,
    }
}

impl Workspace {
    /// A new workspace with a single terminal panel, which has the focus.
    pub fn new() -> (ws: Workspace)
        ensures
            is_fresh_workspace(ws),
    {
        let panel_id = fresh_id();
        let panel = Panel {
            id: panel_id,
            panel_type: PanelType::Terminal,
            directory: None,
            split: None,
        };
        let mut panels = Vec::new();
        panels.push(panel);
        Workspace {
            id: fresh_id(),
            panels,
            focused_panel_id: Some(panel_id),
            attention_panel_id: None,
            custom_title: None,
            process_title: "Terminal".to_owned(),
            latest_unread: None,
        }
    }

    /// The title shown in the sidebar.
    pub fn display_title(&self) -> (t: &String)
        ensures
            t@ == display_title_of(*self),
    {
        match &self.custom_title {
            Some(t) => t,
            None => &self.process_title,
        }
    }

    /// The first panel with the given id.
    pub fn panel(&self, panel_id: u128) -> (p: Option<&Panel>)
        ensures
            match p {
                Some(p) => any_where(self.panels@, panel_has_id(panel_id)) && *p
                    == self.panels@[first_where(self.panels@, panel_has_id(panel_id))],
                None => !any_where(self.panels@, panel_has_id(panel_id)),
            },
    {
        match find_panel(&self.panels, panel_id) {
            Some(k) => {
                proof {
                    lemma_first_where(self.panels@, panel_has_id(panel_id), k as int);
                }
                Some(&self.panels[k])
            },
            None => None,
        }
    }

    /// Removes the first panel with the given id; says whether there was one.
    pub fn remove_panel(&mut self, panel_id: u128) -> (removed: bool)
        ensures
            removed == any_where(old(self).panels@, panel_has_id(panel_id)),
            removed ==> panel_removed(*old(self), *final(self), panel_id),
            removed ==> final(self).panels@.len() == old(self).panels@.len() - 1,
            !removed ==> *final(self) == *old(self),
    {
        match find_panel(&self.panels, panel_id) {
            None => false,
            Some(k) => {
                proof {
                    lemma_first_where(self.panels@, panel_has_id(panel_id), k as int);
                }
                self.panels.remove(k);
                let refocus = match self.focused_panel_id {
                    Some(f) => f == panel_id,
                    None => false,
                };
                if refocus {
                    let n = self.panels.len();
                    if n == 0 {
                        self.focused_panel_id = None;
                    } else if k < n {
                        self.focused_panel_id = Some(self.panels[k].id);
                    } else {
                        self.focused_panel_id = Some(self.panels[n - 1].id);
                    }
                }
                let clear_attention = match self.attention_panel_id {
                    Some(a) => a == panel_id,
                    None => false,
                };
                if clear_attention {
                    self.attention_panel_id = None;
                }
                true
            },
        }
    }

    /// Splits the focused panel: adds a panel of the given type after it,
    /// split off in the given direction, and focuses the new panel; returns
    /// its id. With no focused panel, the new panel goes last.
    pub fn split(&mut self, orientation: SplitOrientation, panel_type: PanelType) -> (id: u128)
        requires
            old(self).panels@.len() < usize::MAX,
        ensures
            is_v4_uuid(id),
            panel_split_off(*old(self), *final(self), id, orientation, panel_type),
            final(self).panels@.len() == old(self).panels@.len() + 1,
            final(self).panels@.contains(
                (Panel { id, panel_type, directory: None, split: Some(orientation) }),
            ),
    {
        let id = fresh_id();
        self.insert_split(id, orientation, panel_type);
        id
    }

    fn insert_split(&mut self, id: u128, orientation: SplitOrientation, panel_type: PanelType)
        requires
            old(self).panels@.len() < usize::MAX,
        ensures
            panel_split_off(*old(self), *final(self), id, orientation, panel_type),
            final(self).panels@.len() == old(self).panels@.len() + 1,
            final(self).panels@.contains(
                (Panel { id, panel_type, directory: None, split: Some(orientation) }),
            ),
    {
        let pos = match self.focused_panel_id {
            Some(f) => match find_panel(&self.panels, f) {
                Some(k) => {
                    proof {
                        lemma_first_where(self.panels@, panel_has_id(f), k as int);
                    }
                    k + 1
                },
                None => self.panels.len(),
            },
            None => self.panels.len(),
        };
        self.panels.insert(pos, Panel { id, panel_type, directory: None, split: Some(orientation) });
        self.focused_panel_id = Some(id);
        proof {
            crate::laws::law_split_records_direction(*old(self), *self, id, orientation, panel_type);
        }
    }

    /// Marks the workspace's notifications as read.
    pub fn mark_notifications_read(&mut self)
        ensures
            *final(self) == (Workspace { latest_unread: None, ..*old(self) }),
    {
        self.latest_unread = None;
    }
}

// ---------------------------------------------------------------------------
// The tab manager
// ---------------------------------------------------------------------------

/// The selection after the workspace at `index` was removed, leaving
/// `new_len` workspaces: a later selection moves down with its workspace;
/// a removed selection stays at its position, or moves to the new last
/// workspace, or is gone when none is left.
pub open spec fn selection_after_removal(sel: Option<usize>, index: int, new_len: int) -> Option<usize> {
    match sel {
        None => None,
        Some(s) => if new_len == 0 {
            None
        } else if index < s {
            Some((s - 1) as usize)
        } else if index == s {
            if s < new_len {
                Some(s)
            } else {
                Some((new_len - 1) as usize)
            }
        } else {
            Some(s)
        },
    }
}

/// `k` is the workspace with the newest unread notification (the first of
/// them on a tie).
pub open spec fn is_latest_unread(wss: Seq<Workspace>, k: int) -> bool {
    &&& 0 <= k < wss.len()
    &&& wss[k].latest_unread is Some
    &&& forall|j: int|
        0 <= j < wss.len() && (#[trigger] wss[j].latest_unread) is Some ==> wss[j].latest_unread->0
            <= wss[k].latest_unread->0
    &&& forall|j: int|
        0 <= j < k && (#[trigger] wss[j].latest_unread) is Some ==> wss[j].latest_unread->0
            < wss[k].latest_unread->0
}

/// No workspace has an unread notification.
pub open spec fn none_unread(wss: Seq<Workspace>) -> bool {
    forall|j: int| 0 <= j < wss.len() ==> (#[trigger] wss[j].latest_unread) is None
}

/// `(new_wss, new_sel)` is `(wss, sel)` after closing the panel `id`: the
/// first workspace holding it loses its first panel of that id, and is
/// itself removed when that was its only panel.
pub open spec fn panel_closed(
    wss: Seq<Workspace>,
    sel: Option<usize>,
    new_wss: Seq<Workspace>,
    new_sel: Option<usize>,
    id: u128,
) -> bool {
    let k = first_where(wss, workspace_has_panel(id));
    if wss[k].panels@.len() == 1 {
        &&& new_wss == wss.remove(k)
        &&& new_sel == selection_after_removal(sel, k, wss.len() - 1)
    } else {
        &&& new_wss.len() == wss.len()
        &&& forall|j: int| 0 <= j < wss.len() && j != k ==> #[trigger] new_wss[j] == wss[j]
        &&& panel_removed(wss[k], new_wss[k], id)
        &&& new_sel == sel
    }
}

/// `wss` with the notifications of the first workspace of the given id
/// marked as read.
pub open spec fn workspaces_marked_read(wss: Seq<Workspace>, workspace_id: u128) -> Seq<Workspace> {
    if any_where(wss, workspace_has_id(workspace_id)) {
        let k = first_where(wss, workspace_has_id(workspace_id));
        wss.update(k, (Workspace { latest_unread: None, ..wss[k] }))
    } else {
        wss
    }
}

/// No two panels of the workspaces share an id.
pub open spec fn panel_ids_unique(wss: Seq<Workspace>) -> bool {
    forall|i: int, j: int, a: int, b: int|
        #![trigger wss[i].panels@[a], wss[j].panels@[b]]
        0 <= i < wss.len() && 0 <= j < wss.len() && 0 <= a < wss[i].panels@.len() && 0 <= b
            < wss[j].panels@.len() && wss[i].panels@[a].id == wss[j].panels@[b].id ==> i == j && a
            == b
}

/// Some workspace holds a panel with the given id.
pub open spec fn panel_id_in_use(wss: Seq<Workspace>, id: u128) -> bool {
    any_where(wss, workspace_has_panel(id))
}

/// Removing a workspace keeps ids unique.
proof fn lemma_unique_remove_workspace(wss: Seq<Workspace>, k: int)
    requires
        panel_ids_unique(wss),
        0 <= k < wss.len(),
    ensures
        panel_ids_unique(wss.remove(k)),
{
    let n = wss.remove(k);
    assert forall|i: int, j: int, a: int, b: int|
        #![trigger n[i].panels@[a], n[j].panels@[b]]
        0 <= i < n.len() && 0 <= j < n.len() && 0 <= a < n[i].panels@.len() && 0 <= b
            < n[j].panels@.len() && n[i].panels@[a].id == n[j].panels@[b].id implies i == j && a
        == b by {
        let oi = if i < k { i } else { i + 1 };
        let oj = if j < k { j } else { j + 1 };
        assert(n[i] == wss[oi]);
        assert(n[j] == wss[oj]);
        assert(wss[oi].panels@[a] == n[i].panels@[a]);
        assert(wss[oj].panels@[b] == n[j].panels@[b]);
    }
}

/// Replacing the panels of one workspace by a sub-list of them keeps ids
/// unique; the sub-list is given by an index map into the old panels.
proof fn lemma_unique_panels_removed(wss: Seq<Workspace>, k: int, w: Workspace, q: int)
    requires
        panel_ids_unique(wss),
        0 <= k < wss.len(),
        0 <= q < wss[k].panels@.len(),
        w.panels@ == wss[k].panels@.remove(q),
    ensures
        panel_ids_unique(wss.update(k, w)),
{
    let n = wss.update(k, w);
    assert forall|i: int, j: int, a: int, b: int|
        #![trigger n[i].panels@[a], n[j].panels@[b]]
        0 <= i < n.len() && 0 <= j < n.len() && 0 <= a < n[i].panels@.len() && 0 <= b
            < n[j].panels@.len() && n[i].panels@[a].id == n[j].panels@[b].id implies i == j && a
        == b by {
        let oa = if i == k && a >= q { a + 1 } else { a };
        let ob = if j == k && b >= q { b + 1 } else { b };
        assert(n[i].panels@[a] == wss[i].panels@[oa]);
        assert(n[j].panels@[b] == wss[j].panels@[ob]);
    }
}

/// Inserting a panel with an id in use nowhere keeps ids unique.
proof fn lemma_unique_panel_inserted(wss: Seq<Workspace>, k: int, w: Workspace, pos: int, p: Panel)
    requires
        panel_ids_unique(wss),
        0 <= k < wss.len(),
        0 <= pos <= wss[k].panels@.len(),
        !panel_id_in_use(wss, p.id),
        w.panels@ == wss[k].panels@.insert(pos, p),
    ensures
        panel_ids_unique(wss.update(k, w)),
{
    let n = wss.update(k, w);
    assert forall|i: int, j: int, a: int, b: int|
        #![trigger n[i].panels@[a], n[j].panels@[b]]
        0 <= i < n.len() && 0 <= j < n.len() && 0 <= a < n[i].panels@.len() && 0 <= b
            < n[j].panels@.len() && n[i].panels@[a].id == n[j].panels@[b].id implies i == j && a
        == b by {
        if i == k && a == pos {
            if !(j == k && b == pos) {
                let ob = if j == k && b > pos { b - 1 } else { b };
                assert(n[j].panels@[b] == wss[j].panels@[ob]);
                assert(panel_has_id(p.id)(wss[j].panels@[ob]));
                assert(workspace_has_panel(p.id)(wss[j]));
            }
        } else if j == k && b == pos {
            let oa = if i == k && a > pos { a - 1 } else { a };
            assert(n[i].panels@[a] == wss[i].panels@[oa]);
            assert(panel_has_id(p.id)(wss[i].panels@[oa]));
            assert(workspace_has_panel(p.id)(wss[i]));
        } else {
            let oa = if i == k && a > pos { a - 1 } else { a };
            let ob = if j == k && b > pos { b - 1 } else { b };
            assert(n[i].panels@[a] == wss[i].panels@[oa]);
            assert(n[j].panels@[b] == wss[j].panels@[ob]);
        }
    }
}

/// The workspaces of the sidebar, in order, and which of them is selected.
pub struct TabManager {
    workspaces: Vec<Workspace>,
    selected: Option<usize>,
}

impl TabManager {
    /// The workspaces in sidebar order.
    pub closed spec fn workspaces_view(&self) -> Seq<Workspace> {
        self.workspaces@
    }

    /// The index of the selected workspace.
    pub closed spec fn selected_view(&self) -> Option<usize> {
        self.selected
    }

    /// A workspace is selected exactly when there is one, the selection is
    /// in range, and no two panels share an id.
    pub open spec fn wf(&self) -> bool {
        &&& match self.selected_view() {
            Some(i) => i < self.workspaces_view().len(),
            None => self.workspaces_view().len() == 0,
        }
        &&& panel_ids_unique(self.workspaces_view())
    }

    /// A tab manager with one new workspace, selected.
    pub fn new() -> (t: TabManager)
        ensures
            t.wf(),
            t.workspaces_view().len() == 1,
            is_fresh_workspace(t.workspaces_view()[0]),
            t.selected_view() == Some(0usize),
    {
        let mut workspaces = Vec::new();
        workspaces.push(Workspace::new());
        TabManager { workspaces, selected: Some(0) }
    }

    /// The number of workspaces.
    pub fn len(&self) -> (n: usize)
        ensures
            n == self.workspaces_view().len(),
    {
        self.workspaces.len()
    }

    /// There is no workspace.
    pub fn is_empty(&self) -> (b: bool)
        ensures
            b == (self.workspaces_view().len() == 0),
    {
        self.workspaces.len() == 0
    }

    /// The workspace at `index`, if there is one.
    pub fn get(&self, index: usize) -> (w: Option<&Workspace>)
        ensures
            match w {
                Some(w) => index < self.workspaces_view().len() && *w
                    == self.workspaces_view()[index as int],
                None => index >= self.workspaces_view().len(),
            },
    {
        if index < self.workspaces.len() {
            Some(&self.workspaces[index])
        } else {
            None
        }
    }

    /// The index of the selected workspace.
    pub fn selected_index(&self) -> (i: Option<usize>)
        ensures
            i == self.selected_view(),
    {
        self.selected
    }

    /// The selected workspace.
    pub fn selected(&self) -> (w: Option<&Workspace>)
        requires
            self.wf(),
        ensures
            match w {
                Some(w) => self.selected_view() is Some && *w == self.workspaces_view()[self.selected_view()->0 as int],
                None => self.selected_view() is None,
            },
    {
        match self.selected {
            Some(i) => Some(&self.workspaces[i]),
            None => None,
        }
    }

    /// Selects the workspace at `index`; says whether there is one.
    pub fn select(&mut self, index: usize) -> (ok: bool)
        requires
            old(self).wf(),
        ensures
            final(self).wf(),
            ok == (index < old(self).workspaces_view().len()),
            !ok ==> *final(self) == *old(self),
            final(self).workspaces_view() == old(self).workspaces_view(),
            final(self).selected_view() == (if ok {
                Some(index)
            } else {
                old(self).selected_view()
            }),
    {
        if index < self.workspaces.len() {
            self.selected = Some(index);
            true
        } else {
            false
        }
    }

    /// Appends a workspace and selects it, unless one of its panel ids is in
    /// use (in it or in another workspace) or the list is full; says whether
    /// it was added.
    pub fn add_workspace(&mut self, workspace: Workspace) -> (added: bool)
        requires
            old(self).wf(),
        ensures
            final(self).wf(),
            added == (old(self).workspaces_view().len() < usize::MAX && panel_ids_unique(
                old(self).workspaces_view().push(workspace),
            )),
            added ==> final(self).workspaces_view() == old(self).workspaces_view().push(workspace),
            added ==> final(self).selected_view() == Some(old(self).workspaces_view().len() as usize),
            !added ==> *final(self) == *old(self),
    {
        if self.workspaces.len() == usize::MAX {
            return false;
        }
        if !self.fits(&workspace) {
            return false;
        }
        self.workspaces.push(workspace);
        self.selected = Some(self.workspaces.len() - 1);
        true
    }

    /// Whether the panel ids stay unique with the workspace appended.
    fn fits(&self, workspace: &Workspace) -> (b: bool)
        requires
            panel_ids_unique(self.workspaces@),
        ensures
            b == panel_ids_unique(self.workspaces@.push(*workspace)),
    {
        let ghost wss = self.workspaces@;
        let ghost n = wss.push(*workspace);
        let ghost last = wss.len() as int;
        let panels = &workspace.panels;
        let m = panels.len();
        let mut a: usize = 0;
        while a < m
            invariant
                m == panels@.len(),
                panels@ == workspace.panels@,
                a <= m,
                wss == self.workspaces@,
                n == wss.push(*workspace),
                last == wss.len(),
                panel_ids_unique(wss),
                forall|x: int| 0 <= x < a ==> !panel_id_in_use(wss, #[trigger] panels@[x].id),
                forall|x: int, y: int| 0 <= x < y < a ==> #[trigger] panels@[x].id != #[trigger] panels@[y].id,
            decreases m - a,
        {
            let id = panels[a].id;
            match self.workspace_index_with_panel(id) {
                Some(j) => {
                    proof {
                        let w = wss[j as int];
                        assert(workspace_has_panel(id)(w));
                        let b = choose|b: int| 0 <= b < w.panels@.len() && #[trigger] panel_has_id(id)(w.panels@[b]);
                        assert(n[j as int] == w);
                        assert(n[last] == *workspace);
                        assert(n[last].panels@[a as int].id == n[j as int].panels@[b].id);
                    }
                    return false;
                },
                None => {},
            }
            let mut b: usize = 0;
            while b < a
                invariant
                    a < m,
                    m == panels@.len(),
                    panels@ == workspace.panels@,
                    id == panels@[a as int].id,
                    n == wss.push(*workspace),
                    last == wss.len(),
                    wss == self.workspaces@,
                    b <= a,
                    forall|y: int| 0 <= y < b ==> #[trigger] panels@[y].id != id,
                decreases a - b,
            {
                if panels[b].id == id {
                    proof {
                        assert(n[last] == *workspace);
                        assert(n[last].panels@[a as int].id == n[last].panels@[b as int].id);
                    }
                    return false;
                }
                b += 1;
            }
            a += 1;
        }
        assert forall|i: int, j: int, x: int, y: int|
            #![trigger n[i].panels@[x], n[j].panels@[y]]
            0 <= i < n.len() && 0 <= j < n.len() && 0 <= x < n[i].panels@.len() && 0 <= y
                < n[j].panels@.len() && n[i].panels@[x].id == n[j].panels@[y].id implies i == j
            && x == y by {
            if i < last {
                assert(n[i] == wss[i]);
            }
            if j < last {
                assert(n[j] == wss[j]);
            }
            if i < last && j < last {
            } else if i == last && j == last {
                if x < y {
                    assert(panels@[x].id != panels@[y].id);
                } else if y < x {
                    assert(panels@[y].id != panels@[x].id);
                }
            } else if i == last {
                assert(panel_has_id(panels@[x].id)(wss[j].panels@[y]));
                assert(workspace_has_panel(panels@[x].id)(wss[j]));
                assert(!panel_id_in_use(wss, panels@[x].id));
            } else {
                assert(panel_has_id(panels@[y].id)(wss[i].panels@[x]));
                assert(workspace_has_panel(panels@[y].id)(wss[i]));
                assert(!panel_id_in_use(wss, panels@[y].id));
            }
        }
        true
    }

    /// Removes the workspace at `index`, if there is one, and returns it.
    pub fn remove(&mut self, index: usize) -> (w: Option<Workspace>)
        requires
            old(self).wf(),
        ensures
            final(self).wf(),
            match w {
                Some(w) => {
                    &&& index < old(self).workspaces_view().len()
                    &&& w == old(self).workspaces_view()[index as int]
                    &&& final(self).workspaces_view() == old(self).workspaces_view().remove(index as int)
                    &&& final(self).selected_view() == selection_after_removal(
                        old(self).selected_view(),
                        index as int,
                        old(self).workspaces_view().len() - 1,
                    )
                },
                None => {
                    &&& index >= old(self).workspaces_view().len()
                    &&& *final(self) == *old(self)
                },
            },
    {
        if index >= self.workspaces.len() {
            return None;
        }
        let w = self.workspaces.remove(index);
        let n = self.workspaces.len();
        self.selected = match self.selected {
            None => None,
            Some(s) => if n == 0 {
                None
            } else if index < s {
                Some(s - 1)
            } else if index == s {
                if s < n {
                    Some(s)
                } else {
                    Some(n - 1)
                }
            } else {
                Some(s)
            },
        };
        Some(w)
    }

    /// The index of the first workspace holding a panel with the given id.
    pub fn workspace_index_with_panel(&self, panel_id: u128) -> (r: Option<usize>)
        ensures
            match r {
                Some(k) => is_first_where(self.workspaces_view(), workspace_has_panel(panel_id), k as int),
                None => !any_where(self.workspaces_view(), workspace_has_panel(panel_id)),
            },
    {
        let mut i: usize = 0;
        while i < self.workspaces.len()
            invariant
                i <= self.workspaces@.len(),
                forall|j: int| 0 <= j < i ==> !#[trigger] workspace_has_panel(panel_id)(self.workspaces@[j]),
            decreases self.workspaces@.len() - i,
        {
            if find_panel(&self.workspaces[i].panels, panel_id).is_some() {
                return Some(i);
            }
            i += 1;
        }
        None
    }

    /// The index of the first workspace with the given id.
    pub fn workspace_index(&self, workspace_id: u128) -> (r: Option<usize>)
        ensures
            match r {
                Some(k) => is_first_where(self.workspaces_view(), workspace_has_id(workspace_id), k as int),
                None => !any_where(self.workspaces_view(), workspace_has_id(workspace_id)),
            },
    {
        let mut i: usize = 0;
        while i < self.workspaces.len()
            invariant
                i <= self.workspaces@.len(),
                forall|j: int| 0 <= j < i ==> !#[trigger] workspace_has_id(workspace_id)(self.workspaces@[j]),
            decreases self.workspaces@.len() - i,
        {
            if self.workspaces[i].id == workspace_id {
                return Some(i);
            }
            i += 1;
        }
        None
    }

    /// Closes the first panel with the given id: removes it from the first
    /// workspace that holds it, and removes that workspace when no panel is
    /// left in it. Says whether there was such a panel.
    pub fn remove_panel(&mut self, panel_id: u128) -> (removed: bool)
        requires
            old(self).wf(),
        ensures
            final(self).wf(),
            removed == any_where(old(self).workspaces_view(), workspace_has_panel(panel_id)),
            !removed ==> *final(self) == *old(self),
            removed ==> panel_closed(
                old(self).workspaces_view(),
                old(self).selected_view(),
                final(self).workspaces_view(),
                final(self).selected_view(),
                panel_id,
            ),
    {
        let k = match self.workspace_index_with_panel(panel_id) {
            None => return false,
            Some(k) => k,
        };
        proof {
            lemma_first_where(self.workspaces@, workspace_has_panel(panel_id), k as int);
        }
        let ghost old_ws = self.workspaces@[k as int];
        let was_last = self.workspaces[k].panels.len() == 1;
        let removed = self.workspaces[k].remove_panel(panel_id);
        assert(removed);
        proof {
            lemma_any_where_first(old_ws.panels@, panel_has_id(panel_id));
            lemma_unique_panels_removed(
                old(self).workspaces@,
                k as int,
                self.workspaces@[k as int],
                first_where(old_ws.panels@, panel_has_id(panel_id)),
            );
            assert(self.workspaces@ =~= old(self).workspaces@.update(k as int, self.workspaces@[k as int]));
        }
        if was_last {
            proof {
                assert(self.workspaces@[k as int].panels@.len() == 0);
            }
            let ghost mid = self.workspaces@;
            let _ = self.remove(k);
            assert(self.workspaces@ =~= old(self).workspaces@.remove(k as int)) by {
                assert(mid =~= old(self).workspaces@.update(k as int, mid[k as int]));
            }
        }
        true
    }

    /// Whether some workspace holds a terminal panel with the given id.
    pub fn has_terminal_panel(&self, panel_id: u128) -> (b: bool)
        ensures
            b == any_where(self.workspaces_view(), workspace_has_terminal(panel_id)),
    {
        let mut i: usize = 0;
        while i < self.workspaces.len()
            invariant
                i <= self.workspaces@.len(),
                forall|j: int| 0 <= j < i ==> !#[trigger] workspace_has_terminal(panel_id)(self.workspaces@[j]),
            decreases self.workspaces@.len() - i,
        {
            let panels = &self.workspaces[i].panels;
            let mut k: usize = 0;
            while k < panels.len()
                invariant
                    i < self.workspaces@.len(),
                    panels@ == self.workspaces@[i as int].panels@,
                    forall|j: int| 0 <= j < i ==> !#[trigger] workspace_has_terminal(panel_id)(self.workspaces@[j]),
                    k <= panels@.len(),
                    forall|j: int| 0 <= j < k ==> !#[trigger] terminal_has_id(panel_id)(panels@[j]),
                decreases panels@.len() - k,
            {
                if panels[k].id == panel_id && panels[k].panel_type == PanelType::Terminal {
                    assert(terminal_has_id(panel_id)(panels@[k as int]));
                    assert(workspace_has_terminal(panel_id)(self.workspaces@[i as int]));
                    return true;
                }
                k += 1;
            }
            assert(!workspace_has_terminal(panel_id)(self.workspaces@[i as int]));
            i += 1;
        }
        false
    }

    /// Records the title that the shell of a terminal panel reported: a
    /// non-empty title becomes the process title of the first workspace
    /// holding the panel. Says whether the title was non-empty, that is,
    /// whether the sidebar is to be refreshed.
    pub fn update_process_title(&mut self, panel_id: u128, title: String) -> (refresh: bool)
        requires
            old(self).wf(),
        ensures
            final(self).wf(),
            refresh == (title@.len() > 0),
            final(self).selected_view() == old(self).selected_view(),
            ({
                let wss = old(self).workspaces_view();
                if refresh && any_where(wss, workspace_has_panel(panel_id)) {
                    let k = first_where(wss, workspace_has_panel(panel_id));
                    final(self).workspaces_view() == wss.update(
                        k,
                        (Workspace { process_title: title, ..wss[k] }),
                    )
                } else {
                    final(self).workspaces_view() == wss
                }
            }),
    {
        if title.as_str().is_empty() {
            return false;
        }
        match self.workspace_index_with_panel(panel_id) {
            Some(k) => {
                proof {
                    lemma_first_where(self.workspaces@, workspace_has_panel(panel_id), k as int);
                }
                self.workspaces[k].process_title = title;
            },
            None => {},
        }
        true
    }

    /// Gives the selected workspace a non-empty title chosen by the user.
    /// Says whether the title was non-empty, that is, whether the window is
    /// to be refreshed.
    pub fn rename_selected(&mut self, title: String) -> (refresh: bool)
        requires
            old(self).wf(),
        ensures
            final(self).wf(),
            refresh == (title@.len() > 0),
            final(self).selected_view() == old(self).selected_view(),
            ({
                let wss = old(self).workspaces_view();
                match old(self).selected_view() {
                    Some(s) if refresh => final(self).workspaces_view() == wss.update(
                        s as int,
                        (Workspace { custom_title: Some(title), ..wss[s as int] }),
                    ),
                    _ => final(self).workspaces_view() == wss,
                }
            }),
    {
        if title.as_str().is_empty() {
            return false;
        }
        match self.selected {
            Some(s) => {
                self.workspaces[s].custom_title = Some(title);
            },
            None => {},
        }
        true
    }

    /// A workspace is selected and its panel list has room for one more.
    pub open spec fn selected_has_room(&self) -> bool {
        &&& self.selected_view() is Some
        &&& self.workspaces_view()[self.selected_view()->0 as int].panels@.len() < usize::MAX
    }

    /// `new` is `self` with the focused panel of the selected workspace split
    /// by a panel of id `id`, the given type and direction.
    pub open spec fn split_into(
        &self,
        new: TabManager,
        id: u128,
        orientation: SplitOrientation,
        panel_type: PanelType,
    ) -> bool {
        let s = self.selected_view()->0 as int;
        let wss = self.workspaces_view();
        &&& new.selected_view() == self.selected_view()
        &&& new.workspaces_view().len() == wss.len()
        &&& forall|j: int| 0 <= j < wss.len() && j != s ==> #[trigger] new.workspaces_view()[j] == wss[j]
        &&& panel_split_off(wss[s], new.workspaces_view()[s], id, orientation, panel_type)
    }

    /// Splits the focused panel of the selected workspace with a new panel
    /// of the given id: adds it after the focused panel, split off in the
    /// given direction, and focuses it. Does so exactly when a workspace is
    /// selected, its panel list has room, and the id is in use nowhere;
    /// otherwise changes nothing. Says whether it split.
    pub fn split_selected_with_id(
        &mut self,
        id: u128,
        orientation: SplitOrientation,
        panel_type: PanelType,
    ) -> (ok: bool)
        requires
            old(self).wf(),
        ensures
            final(self).wf(),
            ok == (old(self).selected_has_room() && !panel_id_in_use(old(self).workspaces_view(), id)),
            ok ==> old(self).split_into(*final(self), id, orientation, panel_type),
            ok ==> final(self).selected_view() == old(self).selected_view(),
            ok ==> final(self).workspaces_view()[old(self).selected_view()->0 as int].panels@.contains(
                (Panel { id, panel_type, directory: None, split: Some(orientation) }),
            ),
            !ok ==> *final(self) == *old(self),
    {
        let s = match self.selected {
            None => return false,
            Some(s) => s,
        };
        if self.workspaces[s].panels.len() == usize::MAX {
            return false;
        }
        if self.workspace_index_with_panel(id).is_some() {
            return false;
        }
        let ghost old_wss = self.workspaces@;
        let ghost pos = split_position(old_wss[s as int]);
        self.workspaces[s].insert_split(id, orientation, panel_type);
        proof {
            let p = Panel { id, panel_type, directory: None, split: Some(orientation) };
            let ws = old_wss[s as int];
            if let Some(f) = ws.focused_panel_id {
                if any_where(ws.panels@, panel_has_id(f)) {
                    lemma_any_where_first(ws.panels@, panel_has_id(f));
                }
            }
            lemma_unique_panel_inserted(old_wss, s as int, self.workspaces@[s as int], pos, p);
            assert(self.workspaces@ =~= old_wss.update(s as int, self.workspaces@[s as int]));
        }
        true
    }

    /// Splits the focused panel of the selected workspace with a new panel
    /// of the given type, under a fresh random id (see
    /// `split_selected_with_id`). Returns the new panel's id; `None` when no
    /// workspace is selected, its panel list is full, or the random id drawn
    /// is already in use.
    pub fn split_selected(&mut self, orientation: SplitOrientation, panel_type: PanelType) -> (id:
        Option<u128>)
        requires
            old(self).wf(),
        ensures
            final(self).wf(),
            !old(self).selected_has_room() ==> id is None,
            match id {
                Some(id) => {
                    &&& is_v4_uuid(id)
                    &&& old(self).selected_has_room()
                    &&& !panel_id_in_use(old(self).workspaces_view(), id)
                    &&& old(self).split_into(*final(self), id, orientation, panel_type)
                    &&& final(self).workspaces_view()[old(self).selected_view()->0 as int].panels@.contains(
                        (Panel { id, panel_type, directory: None, split: Some(orientation) }),
                    )
                },
                None => *final(self) == *old(self),
            },
    {
        match self.selected {
            None => return None,
            Some(s) => {
                if self.workspaces[s].panels.len() == usize::MAX {
                    return None;
                }
            },
        }
        let id = fresh_id();
        if self.split_selected_with_id(id, orientation, panel_type) {
            Some(id)
        } else {
            None
        }
    }

    /// Selects the workspace with the newest unread notification and returns
    /// its id; `None` when nothing is unread.
    pub fn select_latest_unread(&mut self) -> (id: Option<u128>)
        requires
            old(self).wf(),
        ensures
            final(self).wf(),
            final(self).workspaces_view() == old(self).workspaces_view(),
            match id {
                Some(id) => {
                    &&& final(self).selected_view() is Some
                    &&& is_latest_unread(old(self).workspaces_view(), final(self).selected_view()->0 as int)
                    &&& id == old(self).workspaces_view()[final(self).selected_view()->0 as int].id
                },
                None => {
                    &&& none_unread(old(self).workspaces_view())
                    &&& *final(self) == *old(self)
                },
            },
    {
        let n = self.workspaces.len();
        let mut best: Option<usize> = None;
        let mut best_seq: u64 = 0;
        let mut i: usize = 0;
        while i < n
            invariant
                n == self.workspaces@.len(),
                i <= n,
                match best {
                    Some(b) => {
                        &&& b < i
                        &&& self.workspaces@[b as int].latest_unread == Some(best_seq)
                        &&& is_latest_unread(self.workspaces@.take(i as int), b as int)
                    },
                    None => none_unread(self.workspaces@.take(i as int)),
                },
            decreases n - i,
        {
            let ghost prefix = self.workspaces@.take(i as int);
            match self.workspaces[i].latest_unread {
                Some(seq) => {
                    let better = match best {
                        None => true,
                        Some(_) => seq > best_seq,
                    };
                    if better {
                        best = Some(i);
                        best_seq = seq;
                    }
                },
                None => {},
            }
            assert(self.workspaces@.take(i + 1) =~= prefix.push(self.workspaces@[i as int]));
            i += 1;
        }
        assert(self.workspaces@.take(n as int) =~= self.workspaces@);
        match best {
            None => None,
            Some(b) => {
                self.selected = Some(b);
                Some(self.workspaces[b].id)
            },
        }
    }

    /// Marks the notifications of the first workspace with the given id as
    /// read; says whether there is such a workspace.
    pub fn mark_workspace_notifications_read(&mut self, workspace_id: u128) -> (found: bool)
        requires
            old(self).wf(),
        ensures
            final(self).wf(),
            final(self).selected_view() == old(self).selected_view(),
            found == any_where(old(self).workspaces_view(), workspace_has_id(workspace_id)),
            final(self).workspaces_view() == workspaces_marked_read(
                old(self).workspaces_view(),
                workspace_id,
            ),
    {
        match self.workspace_index(workspace_id) {
            Some(k) => {
                proof {
                    lemma_first_where(self.workspaces@, workspace_has_id(workspace_id), k as int);
                }
                self.workspaces[k].mark_notifications_read();
                true
            },
            None => false,
        }
    }

    /// Records a new unread notification, with sequence number `seq`, raised
    /// by a panel of the first workspace with the given id: it becomes the
    /// workspace's newest unread notification and draws attention to the
    /// panel. Says whether there is such a workspace.
    pub fn record_notification(&mut self, workspace_id: u128, panel_id: u128, seq: u64) -> (found:
        bool)
        requires
            old(self).wf(),
        ensures
            final(self).wf(),
            final(self).selected_view() == old(self).selected_view(),
            found == any_where(old(self).workspaces_view(), workspace_has_id(workspace_id)),
            ({
                let wss = old(self).workspaces_view();
                if found {
                    let k = first_where(wss, workspace_has_id(workspace_id));
                    final(self).workspaces_view() == wss.update(
                        k,
                        (Workspace {
                            latest_unread: Some(seq),
                            attention_panel_id: Some(panel_id),
                            ..wss[k]
                        }),
                    )
                } else {
                    *final(self) == *old(self)
                }
            }),
    {
        match self.workspace_index(workspace_id) {
            Some(k) => {
                proof {
                    lemma_first_where(self.workspaces@, workspace_has_id(workspace_id), k as int);
                }
                self.workspaces[k].latest_unread = Some(seq);
                self.workspaces[k].attention_panel_id = Some(panel_id);
                true
            },
            None => false,
        }
    }

    /// The focused panel of the selected workspace.
    pub open spec fn focused_panel_id_view(&self) -> Option<u128> {
        match self.selected_view() {
            Some(s) => self.workspaces_view()[s as int].focused_panel_id,
            None => None,
        }
    }

    /// The focused panel of the selected workspace.
    pub fn focused_panel_id(&self) -> (id: Option<u128>)
        requires
            self.wf(),
        ensures
            id == self.focused_panel_id_view(),
    {
        match self.selected {
            Some(s) => self.workspaces[s].focused_panel_id,
            None => None,
        }
    }
}

} // verus!