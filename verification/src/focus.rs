//! What has the focus.

use vstd::prelude::*;
use crate::session::{tab_of_pane, Pane, Session, Tab, Workspace};

verus! {

/// The panes, looked at.
pub open spec fn all_seen(panes: Seq<Pane>) -> Seq<Pane> {
    panes.map_values(|p: Pane| Pane { seen: true, ..p })
}

/// `new` is `old` with its panes looked at.
pub open spec fn tab_seen(old: Tab, new: Tab) -> bool {
    new == (Tab { panes: new.panes, ..old }) && new.panes@ == all_seen(old.panes@)
}

/// `new` is `old` with the tab `tab` active and looked at, and the focus in it at `focused`.
pub open spec fn tab_active(old: Workspace, new: Workspace, tab: int, focused: u64) -> bool {
    &&& new == (Workspace { tabs: new.tabs, active_tab: new.active_tab, ..old })
    &&& new.active_tab == tab
    &&& new.tabs@.len() == old.tabs@.len()
    &&& new.tabs@ == old.tabs@.update(tab, new.tabs@[tab])
    &&& tab_seen((Tab { focused, ..old.tabs@[tab] }), new.tabs@[tab])
}

/// `new` is `old` with the focus on a pane of a tab. Only that tab is looked at.
pub open spec fn focus_moved(old: Session, new: Session, ws: int, tab: int, focused: u64) -> bool {
    &&& new == (Session {
        workspaces: new.workspaces,
        active: Some(ws as usize),
        selected: ws as usize,
        ..old
    })
    &&& new.workspaces@.len() == old.workspaces@.len()
    &&& new.workspaces@ == old.workspaces@.update(ws, new.workspaces@[ws])
    &&& tab_active(old.workspaces@[ws], new.workspaces@[ws], tab, focused)
}

fn mark_seen(panes: &mut Vec<Pane>)
    ensures
        final(panes)@ == all_seen(old(panes)@),
{
    let ghost source = panes@;
    let mut i: usize = 0;
    while i < panes.len()
        invariant
            panes@.len() == source.len(),
            i <= panes@.len(),
            forall|j: int| 0 <= j < i ==> #[trigger] panes@[j] == (Pane { seen: true, ..source[j] }),
            forall|j: int| i <= j < source.len() ==> #[trigger] panes@[j] == source[j],
        decreases panes@.len() - i,
    {
        panes[i].seen = true;
        i = i + 1;
    }
    proof {
        assert(panes@ =~= all_seen(source));
    }
}

impl Session {
    /// Focus a pane of a tab.
    fn move_focus(&mut self, ws: usize, tab: usize, focused: u64)
        requires
            ws < old(self).workspaces@.len(),
            tab < old(self).workspaces@[ws as int].tabs@.len(),
        ensures
            focus_moved(*old(self), *final(self), ws as int, tab as int, focused),
    {
        self.active = Some(ws);
        self.selected = ws;
        self.workspaces[ws].active_tab = tab;
        self.workspaces[ws].tabs[tab].focused = focused;
        mark_seen(&mut self.workspaces[ws].tabs[tab].panes);
        proof {
            let before = old(self).workspaces@[ws as int];
            let after = self.workspaces@[ws as int];
            assert(self.workspaces@ =~= old(self).workspaces@.update(ws as int, after));
            assert(after.tabs@ =~= before.tabs@.update(tab as int, after.tabs@[tab as int]));
        }
    }

    /// Focus a tab: the pane that had the focus in it gets it.
    pub fn switch_workspace_tab(&mut self, ws: usize, tab: usize)
        requires
            ws < old(self).workspaces@.len(),
            tab < old(self).workspaces@[ws as int].tabs@.len(),
        ensures
            focus_moved(
                *old(self),
                *final(self),
                ws as int,
                tab as int,
                old(self).workspaces@[ws as int].tabs@[tab as int].focused,
            ),
    {
        let focused: u64 = self.workspaces[ws].tabs[tab].focused;
        self.move_focus(ws, tab, focused);
    }

    /// `new` is `self` with a workspace focused: its active tab, where it has one.
    pub open spec fn workspace_focused(&self, new: Session, ws: int) -> bool {
        let w = self.workspaces@[ws];
        if w.active_tab < w.tabs@.len() {
            focus_moved(
                *self,
                new,
                ws,
                w.active_tab as int,
                w.tabs@[w.active_tab as int].focused,
            )
        } else {
            new == (Session { active: Some(ws as usize), selected: ws as usize, ..*self })
        }
    }

    pub fn switch_workspace(&mut self, ws: usize)
        requires
            ws < old(self).workspaces@.len(),
        ensures
            old(self).workspace_focused(*final(self), ws as int),
    {
        let tab: usize = self.workspaces[ws].active_tab;
        if tab < self.workspaces[ws].tabs.len() {
            self.switch_workspace_tab(ws, tab);
        } else {
            self.active = Some(ws);
            self.selected = ws;
        }
    }

    /// Focus a pane of a workspace: whether it is there.
    pub fn focus_pane_in_workspace(&mut self, ws: usize, pane: u64) -> (r: bool)
        ensures
            r == (ws < old(self).workspaces@.len() && tab_of_pane(
                old(self).workspaces@[ws as int].tabs@,
                pane,
            ) is Some),
            if r {
                focus_moved(
                    *old(self),
                    *final(self),
                    ws as int,
                    tab_of_pane(old(self).workspaces@[ws as int].tabs@, pane)->Some_0,
                    pane,
                )
            } else {
                *final(self) == *old(self)
            },
    {
        if ws >= self.workspaces.len() {
            return false;
        }
        match self.workspaces[ws].find_tab_index_for_pane(pane) {
            Some(tab) => {
                self.move_focus(ws, tab, pane);
                true
            },
            None => false,
        }
    }
}

} // verus!
