//! Application state: the shared model and the cache of terminal widgets.
//!
//! The cache is generic in the widget type, so that the library keeps the
//! bookkeeping (which panel has a widget, when one is made, when one is
//! dropped) while the front end supplies the widgets.

use std::collections::HashMap;
use vstd::prelude::*;

use crate::model::{
    any_where, first_where, is_fresh_workspace, lemma_any_where_first, lemma_first_where, live_terminal_ids, panel_has_id,
    panel_closed, workspace_has_id, workspace_has_panel, Panel, PanelType, TabManager,
    Workspace,
};
use crate::notifications::{Notification, NotificationStore};

verus! {

broadcast use vstd::std_specs::hash::group_hash_axioms;

/// The state behind the window: the tab manager and the notification store.
pub struct SharedState {
    pub tab_manager: TabManager,
    pub notifications: NotificationStore,
}

impl SharedState {
    /// The shared state is consistent: its tab manager is well formed.
    pub open spec fn wf(&self) -> bool {
        self.tab_manager.wf()
    }

    /// A tab manager with one new selected workspace and no notification.
    pub fn new() -> (s: SharedState)
        ensures
            s.wf(),
            s.tab_manager.workspaces_view().len() == 1,
            is_fresh_workspace(s.tab_manager.workspaces_view()[0]),
            s.tab_manager.selected_view() == Some(0usize),
            s.notifications.notifications@.len() == 0,
    {
        SharedState { tab_manager: TabManager::new(), notifications: NotificationStore::new() }
    }

    /// Records a notification raised by a panel of a workspace: it is
    /// appended, unread, to the store, and becomes the workspace's newest
    /// unread notification (numbered by its position in the store), drawing
    /// attention to the panel. Says whether there is a workspace with that
    /// id; when there is none, nothing changes.
    pub fn add_notification(&mut self, workspace_id: u128, panel_id: u128, title: String) -> (added:
        bool)
        requires
            old(self).wf(),
        ensures
            final(self).wf(),
            final(self).tab_manager.selected_view() == old(self).tab_manager.selected_view(),
            added == any_where(old(self).tab_manager.workspaces_view(), workspace_has_id(workspace_id)),
            !added ==> *final(self) == *old(self),
            added ==> ({
                let wss = old(self).tab_manager.workspaces_view();
                let ns = old(self).notifications.notifications@;
                let k = first_where(wss, workspace_has_id(workspace_id));
                &&& final(self).notifications.notifications@ == ns.push(
                    (Notification { workspace_id, panel_id, title, read: false }),
                )
                &&& final(self).tab_manager.workspaces_view() == wss.update(
                    k,
                    (Workspace {
                        latest_unread: Some(ns.len() as u64),
                        attention_panel_id: Some(panel_id),
                        ..wss[k]
                    }),
                )
            }),
    {
        let seq = self.notifications.notifications.len() as u64;
        if !self.tab_manager.record_notification(workspace_id, panel_id, seq) {
            return false;
        }
        self.notifications.notifications.push(
            Notification { workspace_id, panel_id, title, read: false },
        );
        true
    }
}

/// Messages from background tasks to the window.
#[derive(Clone, Debug)]
pub enum UiEvent {
    Refresh,
    SendInput { panel_id: u128, text: String },
    BrowserOpen { panel_id: u128, url: String },
    BrowserBack { panel_id: u128 },
    BrowserForward { panel_id: u128 },
    BrowserReload { panel_id: u128 },
    BrowserDevTools { panel_id: u128 },
}

/// Widgets of panels, keyed by panel id.
pub struct WidgetCache<W> {
    pub widgets: HashMap<u128, W>,
}

impl<W> View for WidgetCache<W> {
    type V = Map<u128, W>;

    open spec fn view(&self) -> Map<u128, W> {
        self.widgets@
    }
}

impl<W> WidgetCache<W> {
    /// An empty cache.
    pub fn new() -> (c: WidgetCache<W>)
        ensures
            c@ == Map::<u128, W>::empty(),
    {
        WidgetCache { widgets: HashMap::new() }
    }

    /// The widget of a panel: the cached one, or else one made by `create`
    /// and cached.
    pub fn get_or_create<F: FnOnce() -> W>(&mut self, panel_id: u128, create: F) -> (w: &W)
        requires
            create.requires(()),
        ensures
            final(self)@.contains_key(panel_id),
            *w == final(self)@[panel_id],
            old(self)@.contains_key(panel_id) ==> final(self)@ == old(self)@,
            !old(self)@.contains_key(panel_id) ==> {
                &&& create.ensures((), *w)
                &&& final(self)@ == old(self)@.insert(panel_id, *w)
            },
    {
        if !self.widgets.contains_key(&panel_id) {
            let widget = create();
            self.widgets.insert(panel_id, widget);
        }
        self.widgets.get(&panel_id).unwrap()
    }
}

/// The shared state, with the terminal widget of each terminal panel that
/// has one, keyed by panel id.
pub struct AppState<T> {
    pub shared: SharedState,
    pub terminal_cache: WidgetCache<T>,
}

/// The panel that the first workspace holding `panel_id` has under that id.
pub open spec fn panel_of(wss: Seq<Workspace>, panel_id: u128) -> Panel {
    let w = wss[first_where(wss, workspace_has_panel(panel_id))];
    w.panels@[first_where(w.panels@, panel_has_id(panel_id))]
}

impl<T> AppState<T> {
    /// The cached widgets, by panel id.
    pub open spec fn cache_view(&self) -> Map<u128, T> {
        self.terminal_cache@
    }

    /// The state is consistent: its shared state is well formed.
    pub open spec fn wf(&self) -> bool {
        self.shared.wf()
    }

    /// State over the given shared state, with no widget.
    pub fn new(shared: SharedState) -> (s: AppState<T>)
        ensures
            s.shared == shared,
            s.cache_view() == Map::<u128, T>::empty(),
    {
        AppState { shared, terminal_cache: WidgetCache::new() }
    }

    /// The widget of a panel: the cached one, or else one made by `create`
    /// and cached.
    pub fn terminal_for<F: FnOnce() -> T>(&mut self, panel_id: u128, create: F) -> (t: &T)
        requires
            create.requires(()),
        ensures
            final(self).shared == old(self).shared,
            final(self).cache_view().contains_key(panel_id),
            *t == final(self).cache_view()[panel_id],
            old(self).cache_view().contains_key(panel_id) ==> final(self).cache_view() == old(
                self,
            ).cache_view(),
            !old(self).cache_view().contains_key(panel_id) ==> {
                &&& create.ensures((), *t)
                &&& final(self).cache_view() == old(self).cache_view().insert(panel_id, *t)
            },
    {
        self.terminal_cache.get_or_create(panel_id, create)
    }

    /// The widget to feed input for a panel into: the cached one; else, when
    /// the first workspace holding the panel has it as a terminal, one made
    /// by `spawn` from the panel's directory and cached; else none.
    pub fn terminal_for_input<F: FnOnce(Option<String>) -> T>(&mut self, panel_id: u128, spawn: F) -> (t:
        Option<&T>)
        requires
            old(self).wf(),
            forall|d: Option<String>| spawn.requires((d,)),
        ensures
            final(self).shared == old(self).shared,
            ({
                let wss = old(self).shared.tab_manager.workspaces_view();
                if old(self).cache_view().contains_key(panel_id) {
                    &&& t == Some(&old(self).cache_view()[panel_id])
                    &&& final(self).cache_view() == old(self).cache_view()
                } else if any_where(wss, workspace_has_panel(panel_id)) && panel_of(
                    wss,
                    panel_id,
                ).panel_type == PanelType::Terminal {
                    &&& t is Some
                    &&& spawn.ensures((panel_of(wss, panel_id).directory,), *t->0)
                    &&& final(self).cache_view() == old(self).cache_view().insert(panel_id, *t->0)
                } else {
                    &&& t is None
                    &&& final(self).cache_view() == old(self).cache_view()
                }
            }),
            ({
                let wss = old(self).shared.tab_manager.workspaces_view();
                !old(self).cache_view().contains_key(panel_id) ==> {
                    &&& (t is Some <==> exists|i: int, a: int|
                        0 <= i < wss.len() && 0 <= a < wss[i].panels@.len() && (
                        #[trigger] wss[i].panels@[a]).id == panel_id && wss[i].panels@[a].panel_type
                            == PanelType::Terminal)
                    &&& t is Some ==> forall|i: int, a: int|
                        0 <= i < wss.len() && 0 <= a < wss[i].panels@.len() && (
                        #[trigger] wss[i].panels@[a]).id == panel_id ==> spawn.ensures(
                            (wss[i].panels@[a].directory,),
                            *t->0,
                        )
                }
            }),
    {
        if self.terminal_cache.widgets.contains_key(&panel_id) {
            return self.terminal_cache.widgets.get(&panel_id);
        }
        let ghost wss0 = self.shared.tab_manager.workspaces_view();
        proof {
            assert forall|i: int, a: int|
                0 <= i < wss0.len() && 0 <= a < wss0[i].panels@.len() && (
                #[trigger] wss0[i].panels@[a]).id == panel_id implies panel_of(wss0, panel_id)
                == wss0[i].panels@[a] by {
                crate::laws::law_panel_of_is_the_panel(wss0, panel_id, i, a);
            }
        }
        let k = match self.shared.tab_manager.workspace_index_with_panel(panel_id) {
            Some(k) => k,
            None => {
                proof {
                    assert forall|i: int, a: int|
                        0 <= i < wss0.len() && 0 <= a < wss0[i].panels@.len() implies (
                        #[trigger] wss0[i].panels@[a]).id != panel_id by {
                        if wss0[i].panels@[a].id == panel_id {
                            assert(panel_has_id(panel_id)(wss0[i].panels@[a]));
                            assert(workspace_has_panel(panel_id)(wss0[i]));
                        }
                    }
                }
                return None;
            },
        };
        let ghost wss = self.shared.tab_manager.workspaces_view();
        proof {
            lemma_first_where(wss, workspace_has_panel(panel_id), k as int);
        }
        let workspace = self.shared.tab_manager.get(k).unwrap();
        let panel = match workspace.panel(panel_id) {
            Some(p) => p,
            None => return None,
        };
        if panel.panel_type != PanelType::Terminal {
            return None;
        }
        let directory = match &panel.directory {
            Some(d) => Some(d.clone()),
            None => None,
        };
        proof {
            let w = wss[k as int];
            lemma_any_where_first(w.panels@, panel_has_id(panel_id));
            let q = first_where(w.panels@, panel_has_id(panel_id));
            assert(wss[k as int].panels@[q] == panel_of(wss, panel_id));
        }
        let terminal = spawn(directory);
        self.terminal_cache.widgets.insert(panel_id, terminal);
        self.terminal_cache.widgets.get(&panel_id)
    }

    /// Closes a panel: removes it from the first workspace holding it (and
    /// that workspace when it is left empty) and drops its widget. Says
    /// whether there was such a panel. Whether the panel's process was still
    /// alive does not change what is done.
    pub fn close_panel(&mut self, panel_id: u128, process_alive: bool) -> (closed: bool)
        requires
            old(self).wf(),
        ensures
            final(self).wf(),
            closed == any_where(
                old(self).shared.tab_manager.workspaces_view(),
                workspace_has_panel(panel_id),
            ),
            !closed ==> final(self).shared == old(self).shared && final(self).cache_view() == old(
                self,
            ).cache_view(),
            closed ==> final(self).cache_view() == old(self).cache_view().remove(panel_id),
            final(self).shared.notifications == old(self).shared.notifications,
            closed ==> panel_closed(
                old(self).shared.tab_manager.workspaces_view(),
                old(self).shared.tab_manager.selected_view(),
                final(self).shared.tab_manager.workspaces_view(),
                final(self).shared.tab_manager.selected_view(),
                panel_id,
            ),
    {
        if !self.shared.tab_manager.remove_panel(panel_id) {
            return false;
        }
        self.terminal_cache.widgets.remove(&panel_id);
        true
    }

    /// Closes the focused panel of the selected workspace; says whether
    /// there was one to close.
    pub fn close_focused_panel(&mut self) -> (closed: bool)
        requires
            old(self).wf(),
        ensures
            final(self).wf(),
            ({
                let focus = old(self).shared.tab_manager.focused_panel_id_view();
                match focus {
                    Some(p) => {
                        &&& closed == any_where(
                            old(self).shared.tab_manager.workspaces_view(),
                            workspace_has_panel(p),
                        )
                        &&& closed ==> final(self).cache_view() == old(self).cache_view().remove(p)
                        &&& closed ==> panel_closed(
                            old(self).shared.tab_manager.workspaces_view(),
                            old(self).shared.tab_manager.selected_view(),
                            final(self).shared.tab_manager.workspaces_view(),
                            final(self).shared.tab_manager.selected_view(),
                            p,
                        )
                        &&& final(self).shared.notifications == old(self).shared.notifications
                        &&& !closed ==> final(self).shared == old(self).shared
                            && final(self).cache_view() == old(self).cache_view()
                    },
                    None => {
                        &&& !closed
                        &&& final(self).shared == old(self).shared
                        &&& final(self).cache_view() == old(self).cache_view()
                    },
                }
            }),
    {
        match self.shared.tab_manager.focused_panel_id() {
            Some(p) => self.close_panel(p, true),
            None => false,
        }
    }

    /// The cached widget of the focused panel of the selected workspace.
    pub fn focused_terminal(&self) -> (t: Option<&T>)
        requires
            self.wf(),
        ensures
            match self.shared.tab_manager.focused_panel_id_view() {
                Some(p) => match t {
                    Some(t) => self.cache_view().contains_key(p) && *t == self.cache_view()[p],
                    None => !self.cache_view().contains_key(p),
                },
                None => t is None,
            },
    {
        match self.shared.tab_manager.focused_panel_id() {
            Some(p) => self.terminal_cache.widgets.get(&p),
            None => None,
        }
    }

    /// Drops the widgets of panels that are no longer terminal panels of any
    /// workspace; keeps all others.
    pub fn prune_terminal_cache(&mut self)
        ensures
            final(self).shared == old(self).shared,
            final(self).cache_view() == old(self).cache_view().restrict(
                live_terminal_ids(old(self).shared.tab_manager.workspaces_view()),
            ),
            ({
                let wss = old(self).shared.tab_manager.workspaces_view();
                let c0 = old(self).cache_view();
                let c1 = final(self).cache_view();
                &&& forall|i: int, a: int|
                    0 <= i < wss.len() && 0 <= a < wss[i].panels@.len() && (
                    #[trigger] wss[i].panels@[a]).panel_type == PanelType::Terminal
                        && c0.contains_key(wss[i].panels@[a].id) ==> c1.contains_key(
                        wss[i].panels@[a].id,
                    ) && c1[wss[i].panels@[a].id] == c0[wss[i].panels@[a].id]
                &&& forall|id: u128|
                    #[trigger] c1.contains_key(id) ==> c0.contains_key(id) && exists|i: int, a: int|
                        0 <= i < wss.len() && 0 <= a < wss[i].panels@.len() && (
                        #[trigger] wss[i].panels@[a]).id == id && wss[i].panels@[a].panel_type
                            == PanelType::Terminal
            }),
    {
        let ghost live = live_terminal_ids(self.shared.tab_manager.workspaces_view());
        let ghost cache0 = self.terminal_cache.widgets@;
        let mut dead: Vec<u128> = Vec::new();
        for key in it: self.terminal_cache.widgets.keys()
            invariant
                cache0 == self.terminal_cache.widgets@,
                live == live_terminal_ids(self.shared.tab_manager.workspaces_view()),
                it.seq().unref().to_set() == cache0.dom(),
                forall|j: int| 0 <= j < dead@.len() ==> !live.contains(#[trigger] dead@[j]),
                forall|j: int|
                    0 <= j < it.index() && !live.contains(*it.seq()[j]) ==> dead@.contains(
                        *it.seq()[j],
                    ),
            ensures
                forall|j: int| 0 <= j < dead@.len() ==> !live.contains(#[trigger] dead@[j]),
                forall|k: u128| cache0.contains_key(k) && !live.contains(k) ==> dead@.contains(k),
        {
            let ghost idx = it.index();
            let ghost old_dead = dead@;
            assert(*key == *it.seq()[idx]);
            if !self.shared.tab_manager.has_terminal_panel(*key) {
                dead.push(*key);
            }
            assert forall|j: int| 0 <= j <= idx && !live.contains(*it.seq()[j]) implies dead@.contains(
                *it.seq()[j],
            ) by {
                if j < idx {
                    let m = choose|m: int| 0 <= m < old_dead.len() && old_dead[m] == *it.seq()[j];
                    assert(dead@[m] == old_dead[m]);
                } else {
                    assert(dead@[dead@.len() - 1] == *key);
                }
            }
        }
        let n = dead.len();
        let mut i: usize = 0;
        while i < n
            invariant
                n == dead@.len(),
                i <= n,
                self.shared == old(self).shared,
                forall|k: u128| cache0.contains_key(k) && !live.contains(k) ==> dead@.contains(k),
                forall|j: int| 0 <= j < dead@.len() ==> !live.contains(#[trigger] dead@[j]),
                forall|k: u128|
                    #[trigger] self.terminal_cache.widgets@.contains_key(k) <==> cache0.contains_key(k)
                        && !(exists|j: int| 0 <= j < i && dead@[j] == k),
                forall|k: u128|
                    #[trigger] self.terminal_cache.widgets@.contains_key(k) ==> self.terminal_cache.widgets@[k]
                        == cache0[k],
            decreases n - i,
        {
            self.terminal_cache.widgets.remove(&dead[i]);
            i += 1;
        }
        assert forall|k: u128| #[trigger] self.terminal_cache.widgets@.contains_key(k) <==> cache0.contains_key(k) && live.contains(k) by {
            if cache0.contains_key(k) && !live.contains(k) {
                let j = choose|j: int| 0 <= j < dead@.len() && dead@[j] == k;
                assert(0 <= j < n && dead@[j] == k);
            }
            if exists|j: int| 0 <= j < n && dead@[j] == k {
                let j = choose|j: int| 0 <= j < n && dead@[j] == k;
                assert(!live.contains(dead@[j]));
            }
        }
        assert(self.terminal_cache.widgets@ =~= cache0.restrict(live));
        proof {
            let wss = self.shared.tab_manager.workspaces_view();
            assert forall|i: int, a: int|
                0 <= i < wss.len() && 0 <= a < wss[i].panels@.len() && (
                #[trigger] wss[i].panels@[a]).panel_type == PanelType::Terminal implies live.contains(
                wss[i].panels@[a].id,
            ) by {
                crate::laws::law_live_terminals_are_all_terminals(wss, wss[i].panels@[a].id);
            }
            assert forall|id: u128| #[trigger] live.contains(id) implies exists|i: int, a: int|
                0 <= i < wss.len() && 0 <= a < wss[i].panels@.len() && (
                #[trigger] wss[i].panels@[a]).id == id && wss[i].panels@[a].panel_type
                    == PanelType::Terminal by {
                crate::laws::law_live_terminals_are_all_terminals(wss, id);
            }
        }
    }
}

} // verus!
