//! Closing tabs and workspaces.

use vstd::prelude::*;
use vstd::string::*;
use crate::search::{lemma_filter_none, lemma_filter_step, retain_marked};
use crate::session::{find_pane, pane_at, Pane, Session, Tab, Terminal, Workspace};
use crate::text::same_text;

verus! {

/// One of the panes shows the terminal.
pub open spec fn panes_show(panes: Seq<Pane>, id: Seq<char>) -> bool {
    exists|p: int| 0 <= p < panes.len() && (#[trigger] panes[p]).terminal_id@ == id
}

pub open spec fn tabs_show(tabs: Seq<Tab>, id: Seq<char>) -> bool {
    exists|t: int| 0 <= t < tabs.len() && panes_show((#[trigger] tabs[t]).panes@, id)
}

/// Some pane of some workspace shows the terminal.
pub open spec fn shown(ws: Seq<Workspace>, id: Seq<char>) -> bool {
    exists|w: int| 0 <= w < ws.len() && tabs_show((#[trigger] ws[w]).tabs@, id)
}

pub open spec fn terminal_ids(panes: Seq<Pane>) -> Seq<String> {
    panes.map_values(|p: Pane| p.terminal_id)
}

/// The terminals that the panes of some tabs show, tab by tab.
pub open spec fn tabs_terminal_ids(tabs: Seq<Tab>) -> Seq<String>
    decreases tabs.len(),
{
    if tabs.len() == 0 {
        Seq::empty()
    } else {
        tabs_terminal_ids(tabs.drop_last()) + terminal_ids(tabs.last().panes@)
    }
}

pub open spec fn names(ids: Seq<String>, id: Seq<char>) -> bool {
    exists|i: int| 0 <= i < ids.len() && (#[trigger] ids[i])@ == id
}

/// Those of the terminals that no pane shows any more.
pub open spec fn unshown(ws: Seq<Workspace>, ids: Seq<String>) -> Seq<String> {
    ids.filter(|id: String| !shown(ws, id@))
}

/// The terminals that are left when those of `ids` that no pane shows are gone.
pub open spec fn left_terminals(terminals: Seq<Terminal>, ws: Seq<Workspace>, ids: Seq<String>) -> Seq<
    Terminal,
> {
    terminals.filter(|t: Terminal| shown(ws, t.id@) || !names(ids, t.id@))
}

/// Where position `i` is after the one at `gone` is taken away; the last takes over where there is
/// none behind it.
pub open spec fn after_removal(i: int, gone: int, left: int) -> int {
    if i > gone || (i == gone && gone >= left) {
        i - 1
    } else {
        i
    }
}

/// `new` is `old` without the terminals of `ids` that no pane of `new` shows.
pub open spec fn terminals_let_go(old: Session, new: Session, ids: Seq<String>) -> bool {
    &&& new.terminals@ == left_terminals(old.terminals@, new.workspaces@, ids)
    &&& new.terminal_shutdowns@ == old.terminal_shutdowns@ + unshown(new.workspaces@, ids)
}

/// The pane of copy mode, unless it is among those that go.
pub open spec fn copy_mode_after(copy_mode: Option<u64>, gone: Seq<Pane>) -> Option<u64> {
    match copy_mode {
        Some(pane) => if pane_at(gone, pane) is Some {
            None
        } else {
            Some(pane)
        },
        None => None,
    }
}

pub open spec fn tabs_panes_hold(tabs: Seq<Tab>, pane: u64) -> bool {
    exists|t: int| 0 <= t < tabs.len() && pane_at((#[trigger] tabs[t]).panes@, pane) is Some
}

/// `new` is `old` after tab `tab` of workspace `ws`, not its only one, is closed.
pub open spec fn tab_closed(old: Session, new: Session, ws: int, tab: int) -> bool {
    let before = old.workspaces@[ws];
    let after = new.workspaces@[ws];
    let gone = before.tabs@[tab];
    &&& new == (Session {
        workspaces: new.workspaces,
        terminals: new.terminals,
        terminal_shutdowns: new.terminal_shutdowns,
        copy_mode_pane: copy_mode_after(old.copy_mode_pane, gone.panes@),
        ..old
    })
    &&& new.workspaces@.len() == old.workspaces@.len()
    &&& new.workspaces@ == old.workspaces@.update(ws, after)
    &&& after == (Workspace { tabs: after.tabs, active_tab: after.active_tab, ..before })
    &&& after.tabs@ == before.tabs@.remove(tab)
    &&& after.active_tab == after_removal(
        before.active_tab as int,
        tab,
        before.tabs@.len() - 1,
    )
    &&& terminals_let_go(old, new, terminal_ids(gone.panes@))
}

/// Which workspace is active after the one at `gone` is closed: the same as before; where that is
/// gone, the one that took its place, or the last; where none is left, none.
pub open spec fn active_after_close(active: Option<usize>, gone: int, left: int) -> Option<usize> {
    match active {
        Some(a) => if left == 0 {
            None
        } else {
            Some(after_removal(a as int, gone, left) as usize)
        },
        None => None,
    }
}

/// `new` is `old` after workspace `ws` is closed.
pub open spec fn workspace_closed(old: Session, new: Session, ws: int) -> bool {
    let gone = old.workspaces@[ws];
    let left = old.workspaces@.len() - 1;
    &&& new == (Session {
        workspaces: new.workspaces,
        terminals: new.terminals,
        terminal_shutdowns: new.terminal_shutdowns,
        copy_mode_pane: match old.copy_mode_pane {
            Some(pane) => if tabs_panes_hold(gone.tabs@, pane) {
                None
            } else {
                Some(pane)
            },
            None => None,
        },
        active: active_after_close(old.active, ws, left),
        selected: if left == 0 {
            0
        } else {
            after_removal(ws, ws, left) as usize
        },
        save_scheduled: true,
        ..old
    })
    &&& new.workspaces@ == old.workspaces@.remove(ws)
    &&& terminals_let_go(old, new, tabs_terminal_ids(gone.tabs@))
}

fn panes_show_terminal(panes: &Vec<Pane>, id: &str) -> (r: bool)
    ensures
        r == panes_show(panes@, id@),
{
    let mut i: usize = 0;
    while i < panes.len()
        invariant
            i <= panes@.len(),
            forall|p: int| 0 <= p < i ==> (#[trigger] panes@[p]).terminal_id@ != id@,
        decreases panes@.len() - i,
    {
        if same_text(panes[i].terminal_id.as_str(), id) {
            return true;
        }
        i = i + 1;
    }
    false
}

fn tabs_show_terminal(tabs: &Vec<Tab>, id: &str) -> (r: bool)
    ensures
        r == tabs_show(tabs@, id@),
{
    let mut i: usize = 0;
    while i < tabs.len()
        invariant
            i <= tabs@.len(),
            forall|t: int| 0 <= t < i ==> !panes_show((#[trigger] tabs@[t]).panes@, id@),
        decreases tabs@.len() - i,
    {
        if panes_show_terminal(&tabs[i].panes, id) {
            return true;
        }
        i = i + 1;
    }
    false
}

fn terminal_shown(ws: &Vec<Workspace>, id: &str) -> (r: bool)
    ensures
        r == shown(ws@, id@),
{
    let mut i: usize = 0;
    while i < ws.len()
        invariant
            i <= ws@.len(),
            forall|w: int| 0 <= w < i ==> !tabs_show((#[trigger] ws@[w]).tabs@, id@),
        decreases ws@.len() - i,
    {
        if tabs_show_terminal(&ws[i].tabs, id) {
            return true;
        }
        i = i + 1;
    }
    false
}

fn named(ids: &Vec<String>, id: &str) -> (r: bool)
    ensures
        r == names(ids@, id@),
{
    let mut i: usize = 0;
    while i < ids.len()
        invariant
            i <= ids@.len(),
            forall|j: int| 0 <= j < i ==> (#[trigger] ids@[j])@ != id@,
        decreases ids@.len() - i,
    {
        if same_text(ids[i].as_str(), id) {
            return true;
        }
        i = i + 1;
    }
    false
}

fn push_terminal_ids(panes: &Vec<Pane>, ids: &mut Vec<String>)
    ensures
        final(ids)@ == old(ids)@ + terminal_ids(panes@),
{
    let ghost start = ids@;
    let mut i: usize = 0;
    proof {
        assert(ids@ =~= start + terminal_ids(panes@).take(0));
    }
    while i < panes.len()
        invariant
            i <= panes@.len(),
            ids@ == start + terminal_ids(panes@).take(i as int),
        decreases panes@.len() - i,
    {
        ids.push(panes[i].terminal_id.clone());
        i = i + 1;
        proof {
            assert(terminal_ids(panes@).take(i as int) =~= terminal_ids(panes@).take(i - 1).push(
                panes@[i - 1].terminal_id,
            ));
            assert(ids@ =~= start + terminal_ids(panes@).take(i as int));
        }
    }
    proof {
        assert(terminal_ids(panes@).take(i as int) =~= terminal_ids(panes@));
    }
}

fn ids_of_tabs(tabs: &Vec<Tab>) -> (r: Vec<String>)
    ensures
        r@ == tabs_terminal_ids(tabs@),
{
    let mut ids: Vec<String> = Vec::new();
    let mut i: usize = 0;
    while i < tabs.len()
        invariant
            i <= tabs@.len(),
            ids@ == tabs_terminal_ids(tabs@.take(i as int)),
        decreases tabs@.len() - i,
    {
        push_terminal_ids(&tabs[i].panes, &mut ids);
        i = i + 1;
        proof {
            assert(tabs@.take(i as int).drop_last() =~= tabs@.take(i - 1));
        }
    }
    proof {
        assert(tabs@.take(i as int) =~= tabs@);
    }
    ids
}

fn tabs_hold_pane(tabs: &Vec<Tab>, pane: u64) -> (r: bool)
    ensures
        r == tabs_panes_hold(tabs@, pane),
{
    let mut i: usize = 0;
    while i < tabs.len()
        invariant
            i <= tabs@.len(),
            forall|t: int| 0 <= t < i ==> pane_at((#[trigger] tabs@[t]).panes@, pane) is None,
        decreases tabs@.len() - i,
    {
        if find_pane(&tabs[i].panes, pane).is_some() {
            return true;
        }
        i = i + 1;
    }
    false
}

impl Session {
    /// Let go of the terminals of `ids` that no pane shows any more.
    #[verifier::loop_isolation(false)]
    fn let_terminals_go(&mut self, ids: &Vec<String>)
        ensures
            *final(self) == (Session {
                terminals: final(self).terminals,
                terminal_shutdowns: final(self).terminal_shutdowns,
                ..*old(self)
            }),
            terminals_let_go(*old(self), *final(self), ids@),
    {
        let ghost ws = self.workspaces@;
        let ghost all = *self;
        let ghost p = |t: Terminal| shown(ws, t.id@) || !names(ids@, t.id@);
        let ghost q = |id: String| !shown(ws, id@);
        let mut keep: Vec<bool> = Vec::new();
        let mut i: usize = 0;
        while i < self.terminals.len()
            invariant
                *self == all,
                i <= self.terminals@.len(),
                keep@.len() == i,
                forall|j: int| 0 <= j < i ==> #[trigger] keep@[j] == p(self.terminals@[j]),
            decreases self.terminals@.len() - i,
        {
            let id = self.terminals[i].id.as_str();
            keep.push(terminal_shown(&self.workspaces, id) || !named(ids, id));
            i = i + 1;
        }
        retain_marked(&mut self.terminals, &keep, Ghost(p));
        let ghost kept = self.terminals;
        let mut k: usize = 0;
        proof {
            assert(ids@.take(0) =~= Seq::<String>::empty());
            lemma_filter_none(q);
            assert(self.terminal_shutdowns@ =~= all.terminal_shutdowns@ + ids@.take(0).filter(q));
        }
        while k < ids.len()
            invariant
                *self == (Session {
                    terminals: kept,
                    terminal_shutdowns: self.terminal_shutdowns,
                    ..all
                }),
                k <= ids@.len(),
                self.terminal_shutdowns@ == all.terminal_shutdowns@ + ids@.take(k as int).filter(q),
            decreases ids@.len() - k,
        {
            proof {
                lemma_filter_step(ids@, q, k as int);
            }
            if !terminal_shown(&self.workspaces, ids[k].as_str()) {
                self.terminal_shutdowns.push(ids[k].clone());
                proof {
                    assert(self.terminal_shutdowns@ =~= all.terminal_shutdowns@ + ids@.take(
                        k + 1,
                    ).filter(q));
                }
            }
            k = k + 1;
        }
        proof {
            assert(ids@.take(k as int) =~= ids@);
        }
    }

    /// Close a tab of a workspace: whether it could be. The only tab cannot.
    pub fn close_tab(&mut self, ws: usize, tab: usize) -> (r: bool)
        requires
            ws < old(self).workspaces@.len(),
        ensures
            r == (tab < old(self).workspaces@[ws as int].tabs@.len() && old(
                self,
            ).workspaces@[ws as int].tabs@.len() > 1),
            if r {
                tab_closed(*old(self), *final(self), ws as int, tab as int)
            } else {
                *final(self) == *old(self)
            },
    {
        let count: usize = self.workspaces[ws].tabs.len();
        if count <= 1 || tab >= count {
            return false;
        }
        let gone = self.workspaces[ws].tabs.remove(tab);
        let active: usize = self.workspaces[ws].active_tab;
        if active > tab || (active == tab && tab >= count - 1) {
            self.workspaces[ws].active_tab = active - 1;
        }
        match self.copy_mode_pane {
            Some(pane) => {
                if find_pane(&gone.panes, pane).is_some() {
                    self.copy_mode_pane = None;
                }
            },
            None => {},
        }
        let mut ids: Vec<String> = Vec::new();
        push_terminal_ids(&gone.panes, &mut ids);
        proof {
            assert(ids@ =~= terminal_ids(gone.panes@));
            assert(self.workspaces@ =~= old(self).workspaces@.update(
                ws as int,
                self.workspaces@[ws as int],
            ));
        }
        self.let_terminals_go(&ids);
        true
    }

    /// Close a workspace.
    pub fn close_workspace(&mut self, ws: usize)
        requires
            ws < old(self).workspaces@.len(),
        ensures
            workspace_closed(*old(self), *final(self), ws as int),
    {
        let gone = self.workspaces.remove(ws);
        let left: usize = self.workspaces.len();
        match self.copy_mode_pane {
            Some(pane) => {
                if tabs_hold_pane(&gone.tabs, pane) {
                    self.copy_mode_pane = None;
                }
            },
            None => {},
        }
        self.active = match self.active {
            Some(active) => if left == 0 {
                None
            } else if active > ws || (active == ws && ws >= left) {
                Some(active - 1)
            } else {
                Some(active)
            },
            None => None,
        };
        self.selected = if left == 0 {
            0
        } else if ws >= left {
            ws - 1
        } else {
            ws
        };
        self.save_scheduled = true;
        let ids = ids_of_tabs(&gone.tabs);
        self.let_terminals_go(&ids);
    }
}

/// A terminal that some pane still shows is kept when another pane that showed it is closed.
pub proof fn law_shown_terminals_stay(
    terminals: Seq<Terminal>,
    ws: Seq<Workspace>,
    ids: Seq<String>,
    t: int,
)
    requires
        0 <= t < terminals.len(),
        shown(ws, terminals[t].id@),
    ensures
        left_terminals(terminals, ws, ids).contains(terminals[t]),
{
    terminals.lemma_filter_contains(
        |t: Terminal| shown(ws, t.id@) || !names(ids, t.id@),
        t,
    );
}

/// Closing a workspace leaves the active one active, where it is another.
pub proof fn law_closing_another_workspace_keeps_the_active_one(
    old_session: Session,
    new_session: Session,
    ws: int,
    active: usize,
)
    requires
        workspace_closed(old_session, new_session, ws),
        0 <= ws < old_session.workspaces@.len(),
        old_session.active == Some(active),
        active != ws,
        active < old_session.workspaces@.len(),
    ensures
        new_session.active matches Some(a) && a < new_session.workspaces@.len()
            && new_session.workspaces@[a as int] == old_session.workspaces@[active as int],
{
}

} // verus!
