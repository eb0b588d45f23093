//! Finding workspaces, tabs, panes and terminals by their ids.

use vstd::prelude::*;
use crate::search::lemma_first_where;
use crate::session::{
    aliased, pane_at, pane_named, pane_named_in, pane_named_in_tabs, tab_at, tab_in, tab_of_pane,
    terminal_at, workspace_at, workspace_of_pane, Pane, PaneAlias, Session, Tab, Terminal,
    Workspace,
};

verus! {

/// A workspace is found by its id: the first that has it, and none only where none has.
pub proof fn law_workspaces_are_found(ws: Seq<Workspace>, id: Seq<char>, i: int)
    requires
        0 <= i < ws.len(),
    ensures
        workspace_at(ws, id) matches Some(found) ==> 0 <= found < ws.len() && ws[found].id@ == id,
        ws[i].id@ == id ==> (workspace_at(ws, id) matches Some(found) && found <= i),
{
    broadcast use lemma_first_where;

    assert(ws[i] == ws[i]);
}

proof fn lemma_tab_at(tabs: Seq<Tab>, id: Seq<char>)
    ensures
        match tab_at(tabs, id) {
            Some(t) => 0 <= t < tabs.len() && tabs[t].public_id@ == id && forall|j: int|
                0 <= j < t ==> (#[trigger] tabs[j]).public_id@ != id,
            None => forall|j: int| 0 <= j < tabs.len() ==> (#[trigger] tabs[j]).public_id@ != id,
        },
{
    broadcast use lemma_first_where;

}

/// A tab is found by its public id: the first that has it, workspace by workspace, and none only
/// where none has.
pub proof fn law_tabs_are_found(ws: Seq<Workspace>, id: Seq<char>, w: int, t: int)
    requires
        0 <= w < ws.len(),
        0 <= t < ws[w].tabs@.len(),
    ensures
        tab_in(ws, id) matches Some((a, b)) ==> 0 <= a < ws.len() && 0 <= b < ws[a].tabs@.len()
            && ws[a].tabs@[b].public_id@ == id,
        ws[w].tabs@[t].public_id@ == id ==> (tab_in(ws, id) matches Some((a, b)) && (a < w || (a
            == w && b <= t))),
{
    let p = |x: Workspace| tab_at(x.tabs@, id) is Some;
    lemma_first_where(ws, p);
    lemma_tab_at(ws[w].tabs@, id);
    match tab_in(ws, id) {
        Some((a, b)) => {
            lemma_tab_at(ws[a].tabs@, id);
        },
        None => {
            assert(!p(ws[w]));
        },
    }
}

proof fn lemma_pane_at(panes: Seq<Pane>, pane: u64)
    ensures
        match pane_at(panes, pane) {
            Some(i) => 0 <= i < panes.len() && panes[i].id == pane && forall|j: int|
                0 <= j < i ==> (#[trigger] panes[j]).id != pane,
            None => forall|j: int| 0 <= j < panes.len() ==> (#[trigger] panes[j]).id != pane,
        },
{
    broadcast use lemma_first_where;

}

/// Some tab of these has the pane.
pub open spec fn tabs_have(tabs: Seq<Tab>, pane: u64) -> bool {
    exists|t: int, i: int|
        0 <= t < tabs.len() && 0 <= i < tabs[t].panes@.len() && (#[trigger] tabs[t].panes@[i]).id
            == pane
}

/// A pane is found in the first tab that has it.
pub proof fn law_panes_are_found_in_their_tab(tabs: Seq<Tab>, pane: u64, t: int, i: int)
    requires
        0 <= t < tabs.len(),
        0 <= i < tabs[t].panes@.len(),
    ensures
        tab_of_pane(tabs, pane) is Some <==> tabs_have(tabs, pane),
        tab_of_pane(tabs, pane) matches Some(found) ==> 0 <= found < tabs.len() && exists|k: int|
            0 <= k < tabs[found].panes@.len() && (#[trigger] tabs[found].panes@[k]).id == pane,
        tabs[t].panes@[i].id == pane ==> (tab_of_pane(tabs, pane) matches Some(found) && found <= t),
{
    lemma_tab_of_pane(tabs, pane);
    lemma_pane_at(tabs[t].panes@, pane);
}

proof fn lemma_tab_of_pane(tabs: Seq<Tab>, pane: u64)
    ensures
        tab_of_pane(tabs, pane) is Some <==> tabs_have(tabs, pane),
        match tab_of_pane(tabs, pane) {
            Some(found) => 0 <= found < tabs.len() && pane_at(tabs[found].panes@, pane) is Some
                && (exists|k: int|
                0 <= k < tabs[found].panes@.len() && (#[trigger] tabs[found].panes@[k]).id == pane)
                && forall|j: int|
                0 <= j < found ==> pane_at((#[trigger] tabs[j]).panes@, pane) is None,
            None => forall|j: int|
                0 <= j < tabs.len() ==> pane_at((#[trigger] tabs[j]).panes@, pane) is None,
        },
{
    let p = |x: Tab| pane_at(x.panes@, pane) is Some;
    lemma_first_where(tabs, p);
    match tab_of_pane(tabs, pane) {
        Some(found) => {
            lemma_pane_at(tabs[found].panes@, pane);
            let k = pane_at(tabs[found].panes@, pane)->Some_0;
            assert(tabs[found].panes@[k].id == pane);
            assert forall|j: int| 0 <= j < found implies pane_at(
                (#[trigger] tabs[j]).panes@,
                pane,
            ) is None by {
                assert(!p(tabs[j]));
            }
        },
        None => {
            assert forall|j: int| 0 <= j < tabs.len() implies pane_at(
                (#[trigger] tabs[j]).panes@,
                pane,
            ) is None by {
                assert(!p(tabs[j]));
            }
            if tabs_have(tabs, pane) {
                let (t, i) = choose|t: int, i: int|
                    0 <= t < tabs.len() && 0 <= i < tabs[t].panes@.len() && (
                    #[trigger] tabs[t].panes@[i]).id == pane;
                lemma_pane_at(tabs[t].panes@, pane);
            }
        },
    }
}

/// The terminal of a pane is the one that the pane, in its own workspace, says it shows; there is
/// none where the pane is not in the workspace or no terminal has that id.
pub proof fn law_panes_show_their_terminal(session: Session, ws: int, pane: u64)
    requires
        0 <= ws < session.workspaces@.len(),
    ensures
        session.spec_terminal_of(ws, pane) matches Some(terminal) ==> session.terminals@.contains(
            terminal,
        ) && exists|t: int, i: int|
            0 <= t < session.workspaces@[ws].tabs@.len() && 0 <= i
                < session.workspaces@[ws].tabs@[t].panes@.len() && (
            #[trigger] session.workspaces@[ws].tabs@[t].panes@[i]).id == pane
                && session.workspaces@[ws].tabs@[t].panes@[i].terminal_id@ == terminal.id@,
        session.spec_terminal_of(ws, pane) is None ==> !tabs_have(
            session.workspaces@[ws].tabs@,
            pane,
        ) || (session.workspaces@[ws].spec_pane(pane) matches Some(p) && forall|k: int|
            0 <= k < session.terminals@.len() ==> (#[trigger] session.terminals@[k]).id@
                != p.terminal_id@),
{
    let tabs = session.workspaces@[ws].tabs@;
    lemma_tab_of_pane(tabs, pane);
    match tab_of_pane(tabs, pane) {
        Some(t) => {
            lemma_pane_at(tabs[t].panes@, pane);
            let i = pane_at(tabs[t].panes@, pane)->Some_0;
            let p = tabs[t].panes@[i];
            let q = |x: Terminal| x.id@ == p.terminal_id@;
            lemma_terminal_at(session.terminals@, p.terminal_id@);
            assert(session.workspaces@[ws].tabs@[t].panes@[i].id == pane);
        },
        None => {},
    }
}

proof fn lemma_terminal_at(terminals: Seq<Terminal>, id: Seq<char>)
    ensures
        match terminal_at(terminals, id) {
            Some(k) => 0 <= k < terminals.len() && terminals[k].id@ == id,
            None => forall|k: int|
                0 <= k < terminals.len() ==> (#[trigger] terminals[k]).id@ != id,
        },
{
    broadcast use lemma_first_where;

}

/// Some pane of these workspaces has the public id.
pub open spec fn some_pane_named(ws: Seq<Workspace>, id: Seq<char>) -> bool {
    exists|w: int, t: int, i: int|
        0 <= w < ws.len() && 0 <= t < ws[w].tabs@.len() && 0 <= i < ws[w].tabs@[t].panes@.len() && (
        #[trigger] ws[w].tabs@[t].panes@[i]).public_id@ == id
}

proof fn lemma_pane_named(panes: Seq<Pane>, id: Seq<char>)
    ensures
        match pane_named(panes, id) {
            Some(i) => 0 <= i < panes.len() && panes[i].public_id@ == id,
            None => forall|j: int|
                0 <= j < panes.len() ==> (#[trigger] panes[j]).public_id@ != id,
        },
{
    broadcast use lemma_first_where;

}

proof fn lemma_pane_named_in_tabs(tabs: Seq<Tab>, id: Seq<char>)
    ensures
        match pane_named_in_tabs(tabs, id) {
            Some(pane) => exists|t: int, i: int|
                0 <= t < tabs.len() && 0 <= i < tabs[t].panes@.len() && (
                #[trigger] tabs[t].panes@[i]).public_id@ == id && tabs[t].panes@[i].id == pane,
            None => forall|t: int, i: int|
                0 <= t < tabs.len() && 0 <= i < tabs[t].panes@.len() ==> (
                #[trigger] tabs[t].panes@[i]).public_id@ != id,
        },
{
    broadcast use lemma_first_where;

    match pane_named_in_tabs(tabs, id) {
        Some(pane) => {
            assert(exists|t: int| 0 <= t < tabs.len() && pane_named((#[trigger] tabs[t]).panes@, id)
                is Some && tabs[t].panes@[pane_named(tabs[t].panes@, id)->Some_0].id == pane);
            let t = choose|t: int|
                0 <= t < tabs.len() && pane_named((#[trigger] tabs[t]).panes@, id) is Some
                    && tabs[t].panes@[pane_named(tabs[t].panes@, id)->Some_0].id == pane;
            lemma_pane_named(tabs[t].panes@, id);
            let i = pane_named(tabs[t].panes@, id)->Some_0;
            assert(tabs[t].panes@[i].public_id@ == id);
        },
        None => {
            assert forall|t: int, i: int|
                0 <= t < tabs.len() && 0 <= i < tabs[t].panes@.len() implies (
            #[trigger] tabs[t].panes@[i]).public_id@ != id by {
                assert(pane_named(tabs[t].panes@, id) is None);
                lemma_pane_named(tabs[t].panes@, id);
            }
        },
    }
}

proof fn lemma_pane_named_in(ws: Seq<Workspace>, id: Seq<char>)
    ensures
        pane_named_in(ws, id) is Some <==> some_pane_named(ws, id),
        pane_named_in(ws, id) matches Some((w, pane)) ==> exists|t: int, i: int|
            0 <= w < ws.len() && 0 <= t < ws[w].tabs@.len() && 0 <= i < ws[w].tabs@[t].panes@.len()
                && (#[trigger] ws[w].tabs@[t].panes@[i]).public_id@ == id
                && ws[w].tabs@[t].panes@[i].id == pane,
{
    broadcast use lemma_first_where;

    match pane_named_in(ws, id) {
        Some((w, pane)) => {
            assert(0 <= w < ws.len() && pane_named_in_tabs(ws[w].tabs@, id) == Some(pane));
            let tabs = ws[w].tabs@;
            lemma_pane_named_in_tabs(tabs, id);
            let (t, i) = choose|t: int, i: int|
                0 <= t < tabs.len() && 0 <= i < tabs[t].panes@.len() && (
                #[trigger] tabs[t].panes@[i]).public_id@ == id && tabs[t].panes@[i].id == pane;
            assert(ws[w].tabs@[t].panes@[i].public_id@ == id);
        },
        None => {
            if some_pane_named(ws, id) {
                let (w, t, i) = choose|w: int, t: int, i: int|
                    0 <= w < ws.len() && 0 <= t < ws[w].tabs@.len() && 0 <= i
                        < ws[w].tabs@[t].panes@.len() && (
                    #[trigger] ws[w].tabs@[t].panes@[i]).public_id@ == id;
                assert(pane_named_in_tabs(ws[w].tabs@, id) is None);
                lemma_pane_named_in_tabs(ws[w].tabs@, id);
                assert(ws[w].tabs@[t].panes@[i].public_id@ != id);
            }
        },
    }
}

proof fn lemma_aliased(aliases: Seq<PaneAlias>, id: Seq<char>)
    ensures
        match aliased(aliases, id) {
            Some(pane) => exists|k: int|
                0 <= k < aliases.len() && (#[trigger] aliases[k]).alias@ == id && aliases[k].pane
                    == pane && forall|j: int| 0 <= j < k ==> (#[trigger] aliases[j]).alias@ != id,
            None => forall|k: int| 0 <= k < aliases.len() ==> (#[trigger] aliases[k]).alias@ != id,
        },
{
    broadcast use lemma_first_where;

}

/// A public id leads to the pane that has it, in its workspace. Only where no pane has it can it be
/// an alias, of a pane that is still in some workspace; then it leads there.
pub proof fn law_public_ids_lead_to_their_pane(session: Session, id: Seq<char>)
    ensures
        ({
            let ws = session.workspaces@;
            let found = session.spec_parse_pane_id(id);
            &&& some_pane_named(ws, id) ==> (found matches Some((w, pane)) && exists|t: int, i: int|
                0 <= w < ws.len() && 0 <= t < ws[w].tabs@.len() && 0 <= i
                    < ws[w].tabs@[t].panes@.len() && (#[trigger] ws[w].tabs@[t].panes@[i]).public_id@
                    == id && ws[w].tabs@[t].panes@[i].id == pane)
            &&& !some_pane_named(ws, id) ==> (found matches Some((w, pane)) ==> 0 <= w < ws.len()
                && tabs_have(ws[w].tabs@, pane) && exists|k: int|
                0 <= k < session.pane_aliases@.len() && (#[trigger] session.pane_aliases@[k]).alias@
                    == id && session.pane_aliases@[k].pane == pane)
        }),
{
    let ws = session.workspaces@;
    lemma_pane_named_in(ws, id);
    lemma_aliased(session.pane_aliases@, id);
    if aliased(session.pane_aliases@, id) is Some {
        lemma_workspace_of_pane(ws, aliased(session.pane_aliases@, id)->Some_0);
    }
}

proof fn lemma_workspace_of_pane(ws: Seq<Workspace>, pane: u64)
    ensures
        match workspace_of_pane(ws, pane) {
            Some(w) => 0 <= w < ws.len() && tabs_have(ws[w].tabs@, pane),
            None => forall|w: int|
                0 <= w < ws.len() ==> !tabs_have((#[trigger] ws[w]).tabs@, pane),
        },
{
    let p = |x: Workspace| tab_of_pane(x.tabs@, pane) is Some;
    lemma_first_where(ws, p);
    match workspace_of_pane(ws, pane) {
        Some(w) => {
            lemma_tab_of_pane(ws[w].tabs@, pane);
        },
        None => {
            assert forall|w: int| 0 <= w < ws.len() implies !tabs_have(
                (#[trigger] ws[w]).tabs@,
                pane,
            ) by {
                assert(!p(ws[w]));
                lemma_tab_of_pane(ws[w].tabs@, pane);
            }
        },
    }
}

/// A pane is in some workspace exactly when a tab of one has it.
pub proof fn law_panes_are_in_their_workspace(ws: Seq<Workspace>, pane: u64)
    ensures
        workspace_of_pane(ws, pane) is Some <==> exists|w: int|
            0 <= w < ws.len() && tabs_have((#[trigger] ws[w]).tabs@, pane),
        workspace_of_pane(ws, pane) matches Some(w) ==> 0 <= w < ws.len() && tabs_have(
            ws[w].tabs@,
            pane,
        ),
{
    lemma_workspace_of_pane(ws, pane);
}

/// An alias of a pane that is in some workspace leads there, where no pane has the id itself.
pub proof fn law_aliases_lead_to_their_pane(session: Session, id: Seq<char>, k: int)
    requires
        0 <= k < session.pane_aliases@.len(),
        session.pane_aliases@[k].alias@ == id,
        forall|j: int|
            0 <= j < k ==> (#[trigger] session.pane_aliases@[j]).alias@ != id,
        !some_pane_named(session.workspaces@, id),
    ensures
        session.spec_parse_pane_id(id) is Some <==> exists|w: int|
            0 <= w < session.workspaces@.len() && tabs_have(
                (#[trigger] session.workspaces@[w]).tabs@,
                session.pane_aliases@[k].pane,
            ),
        session.spec_parse_pane_id(id) matches Some((_, pane)) ==> pane
            == session.pane_aliases@[k].pane,
{
    let ws = session.workspaces@;
    lemma_pane_named_in(ws, id);
    lemma_aliased(session.pane_aliases@, id);
    lemma_workspace_of_pane(ws, session.pane_aliases@[k].pane);
}

/// The pane that has the focus in a workspace is the focused one of its active tab.
pub proof fn law_the_active_tab_has_the_focus(w: Workspace)
    ensures
        w.active_tab < w.tabs@.len() ==> w.spec_focused_pane() == Some(
            w.tabs@[w.active_tab as int].focused,
        ),
        w.active_tab >= w.tabs@.len() ==> w.spec_focused_pane() is None,
{
}

} // verus!
