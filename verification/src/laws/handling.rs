//! Laws on requests as a whole: what is answered, what has changed afterwards, and what has not.

use vstd::prelude::*;
use crate::closing::{
    shown, tab_closed, tabs_panes_hold, tabs_terminal_ids, terminal_ids, terminals_let_go, unshown,
    workspace_closed,
};
use crate::creation::{
    is_first_step, shown_after_create, workspace_create_planned, CwdPolicy, NewWorkspaceStep,
    PendingCwd, WorkspacePlan,
};
use crate::focus::focus_moved;
use crate::info::{
    are_panes_asked_for, are_tab_infos, are_workspace_infos, counted, is_pane_info, is_snapshot,
    is_tab_info, is_workspace_info, pane_status, present, status_of, tab_told, tabs_before,
    told_tabs, told_workspaces, AgentStatus, CreatedTab, CreatedWorkspace, PaneInfo,
    SessionSnapshot, TabInfo, TabLayout, WorkspaceInfo,
};
use crate::build_info::BuildInputs;
use crate::laws::session::law_terminals_go_with_their_last_pane;
use crate::moves::{block_order, followed, is_block, landing, moved};
use crate::response::{ApiError, Response};
use crate::search::lemma_first_where;
use crate::session::{
    pane_at, tab_in, workspace_at, Event, Mode, Pane, Session, Tab, Terminal, Workspace,
};
use crate::tabs::{
    new_tab_told, tab_added, tab_close_outcome, tab_create_outcome, tab_create_planned,
    tab_focus_outcome, tab_get_outcome, tab_list_outcome, tab_move_outcome, tab_moved,
    tab_rename_outcome, tab_renamed, target_workspace, NewPane, TabCreateParams, TabPlan,
};
use crate::text::opt_view;
use crate::workspaces::{
    block_move, block_move_outcome, block_moved, place_in, workspace_added,
    workspace_close_outcome, workspace_create_outcome, workspace_focus_outcome,
    workspace_get_outcome, workspace_move_outcome, workspace_moved, workspace_rename_outcome,
    NewWorkspace, WorkspaceMoveBlockParams,
};

verus! {

// ---------------------------------------------------------------------------------------------
// What is there
// ---------------------------------------------------------------------------------------------

/// Some workspace has this id.
pub open spec fn workspace_is_there(session: Session, id: Seq<char>) -> bool {
    exists|i: int| 0 <= i < session.workspaces@.len() && (#[trigger] session.workspaces@[i]).id@ == id
}

/// Some tab of some workspace has this id.
pub open spec fn tab_is_there(session: Session, id: Seq<char>) -> bool {
    exists|w: int, t: int|
        0 <= w < session.workspaces@.len() && 0 <= t < session.workspaces@[w].tabs@.len() && (
        #[trigger] session.workspaces@[w].tabs@[t]).public_id@ == id
}

proof fn lemma_workspace_found(session: Session, id: Seq<char>)
    ensures
        workspace_at(session.workspaces@, id) is Some <==> workspace_is_there(session, id),
        workspace_at(session.workspaces@, id) matches Some(ws) ==> 0 <= ws
            < session.workspaces@.len() && session.workspaces@[ws].id@ == id,
{
    broadcast use lemma_first_where;

    if let Some(ws) = workspace_at(session.workspaces@, id) {
        assert(session.workspaces@[ws].id@ == id);
    }
}

proof fn lemma_tab_found(session: Session, id: Seq<char>)
    ensures
        tab_in(session.workspaces@, id) is Some <==> tab_is_there(session, id),
        tab_in(session.workspaces@, id) matches Some((w, t)) ==> 0 <= w < session.workspaces@.len()
            && 0 <= t < session.workspaces@[w].tabs@.len()
            && session.workspaces@[w].tabs@[t].public_id@ == id,
{
    if session.workspaces@.len() > 0 {
        if exists|w: int, t: int|
            0 <= w < session.workspaces@.len() && 0 <= t < session.workspaces@[w].tabs@.len() && (
            #[trigger] session.workspaces@[w].tabs@[t]).public_id@ == id {
            let (w, t) = choose|w: int, t: int|
                0 <= w < session.workspaces@.len() && 0 <= t < session.workspaces@[w].tabs@.len()
                    && (#[trigger] session.workspaces@[w].tabs@[t]).public_id@ == id;
            crate::laws::lookup::law_tabs_are_found(session.workspaces@, id, w, t);
        }
    }
    if let Some((w, t)) = tab_in(session.workspaces@, id) {
        lemma_tab_in_range(session.workspaces@, id);
        assert(session.workspaces@[w].tabs@[t].public_id@ == id);
    }
}

proof fn lemma_tab_in_range(ws: Seq<Workspace>, id: Seq<char>)
    ensures
        tab_in(ws, id) matches Some((w, t)) ==> 0 <= w < ws.len() && 0 <= t < ws[w].tabs@.len()
            && ws[w].tabs@[t].public_id@ == id,
{
    broadcast use lemma_first_where;

}

// ---------------------------------------------------------------------------------------------
// Asking
// ---------------------------------------------------------------------------------------------

/// A tab that is asked for is answered with its own info, and one that is not there with its name.
pub proof fn law_tabs_can_be_asked_for(
    session: Session,
    tab_id: Seq<char>,
    body: Result<TabInfo, ApiError>,
)
    requires
        tab_get_outcome(session, tab_id, body),
    ensures
        tab_is_there(session, tab_id) ==> (body matches Ok(info) && info.tab_id@ == tab_id),
        !tab_is_there(session, tab_id) ==> (body matches Err(e) && e.code@ == "tab_not_found"@
            && e.message@ == "tab "@ + tab_id + " not found"@),
{
    lemma_tab_found(session, tab_id);
}

/// The tabs of the workspaces before one are counted workspace by workspace.
pub proof fn law_tabs_are_counted(session: Session, n: int)
    requires
        0 <= n,
    ensures
        tabs_before(session, 0) == 0,
        tabs_before(session, n + 1) == tabs_before(session, n) + session.workspaces@[n].tabs@.len(),
{
}

/// A list of the tabs of a workspace has each of them in its place, and one of all workspaces has
/// each tab of each, after those of the workspaces before.
pub proof fn law_tabs_are_listed(
    session: Session,
    workspace_id: Option<Seq<char>>,
    body: Result<Vec<TabInfo>, ApiError>,
    ws: int,
    tab: int,
)
    requires
        tab_list_outcome(session, workspace_id, body),
        0 <= ws < session.workspaces@.len(),
        0 <= tab < session.workspaces@[ws].tabs@.len(),
    ensures
        workspace_id is None ==> (body matches Ok(infos) && infos@.len() == tabs_before(
            session,
            session.workspaces@.len() as int,
        ) && 0 <= tabs_before(session, ws) + tab < infos@.len() && infos@[tabs_before(session, ws)
            + tab].tab_id == session.workspaces@[ws].tabs@[tab].public_id),
        workspace_id matches Some(id) ==> {
            &&& workspace_is_there(session, id) ==> body is Ok
            &&& !workspace_is_there(session, id) ==> (body matches Err(e) && e.code@
                == "workspace_not_found"@ && e.message@ == "workspace "@ + id + " not found"@)
            &&& workspace_at(session.workspaces@, id) == Some(ws) ==> (body matches Ok(infos)
                && infos@.len() == session.workspaces@[ws].tabs@.len() && infos@[tab].tab_id
                == session.workspaces@[ws].tabs@[tab].public_id)
        },
{
    if let Some(id) = workspace_id {
        lemma_workspace_found(session, id);
    } else {
        assert(tab_told(body->Ok_0@, session, ws, tab));
    }
}

/// A workspace that is asked for is answered with its own info, and one that is not there with its
/// name.
pub proof fn law_workspaces_can_be_asked_for(
    session: Session,
    id: Seq<char>,
    body: Result<WorkspaceInfo, ApiError>,
)
    requires
        workspace_get_outcome(session, id, body),
    ensures
        workspace_is_there(session, id) ==> (body matches Ok(info) && info.workspace_id@ == id),
        !workspace_is_there(session, id) ==> (body matches Err(e) && e.code@
            == "workspace_not_found"@ && e.message@ == "workspace "@ + id + " not found"@),
{
    lemma_workspace_found(session, id);
}

/// Lists of infos have each thing in its place.
pub proof fn law_lists_are_in_order(
    session: Session,
    workspaces: Seq<WorkspaceInfo>,
    tabs: Seq<TabInfo>,
    ws: int,
    i: int,
)
    ensures
        are_workspace_infos(workspaces, session) ==> workspaces.len() == session.workspaces@.len()
            && (0 <= i < workspaces.len() ==> workspaces[i].workspace_id == session.workspaces@[i].id
            && workspaces[i].number == i + 1),
        are_tab_infos(tabs, session, ws) ==> tabs.len() == session.workspaces@[ws].tabs@.len() && (0
            <= i < tabs.len() ==> tabs[i].tab_id == session.workspaces@[ws].tabs@[i].public_id
            && tabs[i].number == i + 1),
{
    if are_workspace_infos(workspaces, session) && 0 <= i < workspaces.len() {
        assert(is_workspace_info(workspaces[i], session, i));
    }
    if are_tab_infos(tabs, session, ws) && 0 <= i < tabs.len() {
        assert(is_tab_info(tabs[i], session, ws, i));
    }
}

/// The panes of a workspace are listed, or of all workspaces where none is named; of one that is not
/// there nothing is, and its name is told.
pub proof fn law_panes_are_listed(
    session: Session,
    workspace_id: Option<Seq<char>>,
    r: Result<Vec<PaneInfo>, ApiError>,
    i: int,
)
    requires
        are_panes_asked_for(session, workspace_id, r),
    ensures
        workspace_id is None ==> (r matches Ok(infos) && {
            let told = told_workspaces(session, session.workspaces@.len() as int);
            &&& infos@.len() == told.len()
            &&& 0 <= i < told.len() ==> is_pane_info(infos@[i], session, told[i].0, told[i].1)
        }),
        workspace_id matches Some(id) ==> {
            &&& workspace_is_there(session, id) ==> (r matches Ok(infos) && workspace_at(
                session.workspaces@,
                id,
            ) is Some && {
                let ws = workspace_at(session.workspaces@, id)->0;
                let told = told_tabs(session, ws, session.workspaces@[ws].tabs@);
                &&& session.workspaces@[ws].id@ == id
                &&& infos@.len() == told.len()
                &&& 0 <= i < told.len() ==> is_pane_info(infos@[i], session, told[i].0, told[i].1)
            })
            &&& !workspace_is_there(session, id) ==> (r matches Err(e) && e.code@
                == "workspace_not_found"@ && e.message@ == "workspace "@ + id + " not found"@)
        },
{
    if let Some(id) = workspace_id {
        lemma_workspace_found(session, id);
    }
    if let Ok(infos) = r {
        if 0 <= i < infos@.len() {
            assert(infos@[i] == infos@[i]);
        }
    }
}

/// Of values that may be missing those that are there are kept, in order.
pub proof fn law_values_that_are_there<A>(values: Seq<Option<A>>, value: A)
    ensures
        present(values.push(Some(value))) == present(values).push(value),
        present(values.push(None)) == present(values),
        present(Seq::<Option<A>>::empty()) == Seq::<A>::empty(),
{
    assert(values.push(Some(value)).drop_last() =~= values);
    assert(values.push(None).drop_last() =~= values);
}

/// A snapshot has the version and the protocol, names what has the focus, and holds every workspace,
/// tab, pane, layout and agent.
pub proof fn law_snapshots_are_whole(
    r: SessionSnapshot,
    session: Session,
    build: BuildInputs,
    protocol: u32,
    layouts: Seq<Option<TabLayout>>,
)
    requires
        is_snapshot(r, session, build, protocol, layouts),
    ensures
        r.version@ == build.spec_version(),
        r.protocol == protocol,
        r.workspaces@.len() == session.workspaces@.len(),
        r.tabs@.len() == tabs_before(session, session.workspaces@.len() as int),
        r.panes@.len() == told_workspaces(session, session.workspaces@.len() as int).len(),
        r.layouts@ == present(layouts),
        r.agents@.len() == crate::agents::agent_panes(session).len(),
        session.active is None || session.active->0 >= session.workspaces@.len()
            ==> r.focused_workspace_id is None && r.focused_tab_id is None && r.focused_pane_id
            is None,
        session.active matches Some(a) ==> a < session.workspaces@.len() ==> {
            let w = session.workspaces@[a as int];
            &&& r.focused_workspace_id == Some(w.id)
            &&& w.active_tab < w.tabs@.len() ==> r.focused_tab_id == Some(
                w.tabs@[w.active_tab as int].public_id,
            )
            &&& w.active_tab >= w.tabs@.len() ==> r.focused_tab_id is None
            &&& w.spec_focused_pane() is None ==> r.focused_pane_id is None
            &&& w.spec_focused_pane() matches Some(p) ==> (w.spec_pane(p) matches Some(pane)
                ==> r.focused_pane_id == Some(pane.public_id))
        },
{
}

// ---------------------------------------------------------------------------------------------
// Focusing and renaming
// ---------------------------------------------------------------------------------------------

/// Moving the focus touches no workspace but one and no tab of it but one, and nothing else of the
/// session.
pub proof fn law_focus_leaves_the_rest(
    before: Session,
    after: Session,
    ws: int,
    tab: int,
    pane: u64,
    w: int,
    t: int,
)
    requires
        focus_moved(before, after, ws, tab, pane),
        0 <= ws < before.workspaces@.len(),
        0 <= tab < before.workspaces@[ws].tabs@.len(),
        0 <= w < before.workspaces@.len(),
        0 <= t < before.workspaces@[ws].tabs@.len(),
    ensures
        after.workspaces@.len() == before.workspaces@.len(),
        w != ws ==> after.workspaces@[w] == before.workspaces@[w],
        after.workspaces@[ws].tabs@.len() == before.workspaces@[ws].tabs@.len(),
        t != tab ==> after.workspaces@[ws].tabs@[t] == before.workspaces@[ws].tabs@[t],
        after.workspaces@[ws] == (Workspace {
            tabs: after.workspaces@[ws].tabs,
            active_tab: after.workspaces@[ws].active_tab,
            ..before.workspaces@[ws]
        }),
        after == (Session {
            workspaces: after.workspaces,
            active: after.active,
            selected: after.selected,
            ..before
        }),
{
}

/// A tab that is there gets the focus, at the pane that had it in the tab; for one that is not there
/// nothing changes and its name is told.
pub proof fn law_tabs_can_be_focused(
    before: Session,
    after: Session,
    tab_id: Seq<char>,
    body: Result<TabInfo, ApiError>,
)
    requires
        tab_focus_outcome(before, after, tab_id, body),
        before.workspaces@.len() <= usize::MAX,
    ensures
        tab_is_there(before, tab_id) ==> {
            &&& body matches Ok(info) && info.tab_id@ == tab_id && info.focused
            &&& after.active matches Some(a) && a < after.workspaces@.len() && {
                let w = after.workspaces@[a as int];
                &&& w.active_tab < w.tabs@.len()
                &&& w.tabs@[w.active_tab as int].public_id@ == tab_id
                &&& w.tabs@[w.active_tab as int].focused
                    == before.workspaces@[a as int].tabs@[w.active_tab as int].focused
            }
        },
        !tab_is_there(before, tab_id) ==> after == before && (body matches Err(e) && e.code@
            == "tab_not_found"@ && e.message@ == "tab "@ + tab_id + " not found"@),
{
    lemma_tab_found(before, tab_id);
}

/// A workspace that is there gets the focus; for one that is not there nothing changes and its name
/// is told.
pub proof fn law_workspaces_can_be_focused(
    before: Session,
    after: Session,
    id: Seq<char>,
    body: Result<WorkspaceInfo, ApiError>,
)
    requires
        workspace_focus_outcome(before, after, id, body),
        before.workspaces@.len() <= usize::MAX,
    ensures
        workspace_is_there(before, id) ==> {
            &&& body matches Ok(info) && info.workspace_id@ == id && info.focused
            &&& after.active matches Some(a) && a < after.workspaces@.len()
                && after.workspaces@[a as int].id@ == id && after.selected == a
        },
        !workspace_is_there(before, id) ==> after == before && (body matches Err(e) && e.code@
            == "workspace_not_found"@ && e.message@ == "workspace "@ + id + " not found"@),
{
    lemma_workspace_found(before, id);
}

/// A tab that is there gets its new name, and its info has it; for one that is not there nothing
/// changes and its name is told.
pub proof fn law_tabs_can_be_renamed(
    before: Session,
    after: Session,
    tab_id: Seq<char>,
    label: String,
    body: Result<TabInfo, ApiError>,
)
    requires
        tab_rename_outcome(before, after, tab_id, label, body),
    ensures
        tab_is_there(before, tab_id) ==> (body matches Ok(info) && info.tab_id@ == tab_id
            && info.label@ == label@ && tab_in(before.workspaces@, tab_id) is Some && {
            let (ws, tab) = tab_in(before.workspaces@, tab_id)->0;
            tab_renamed(before, after, ws, tab, label)
        }),
        !tab_is_there(before, tab_id) ==> after == before && (body matches Err(e) && e.code@
            == "tab_not_found"@ && e.message@ == "tab "@ + tab_id + " not found"@),
{
    lemma_tab_found(before, tab_id);
}

/// Renaming a tab touches that tab's name, the tab bar and what listeners are told, and nothing else.
pub proof fn law_renaming_leaves_the_rest(
    before: Session,
    after: Session,
    ws: int,
    tab: int,
    label: String,
    w: int,
)
    requires
        tab_renamed(before, after, ws, tab, label),
        0 <= ws < before.workspaces@.len(),
        0 <= tab < before.workspaces@[ws].tabs@.len(),
        0 <= w < before.workspaces@.len(),
    ensures
        w != ws ==> after.workspaces@[w] == before.workspaces@[w],
        after.workspaces@[ws].tabs@[tab] == (Tab {
            custom_name: Some(label),
            ..before.workspaces@[ws].tabs@[tab]
        }),
        after.workspaces@[ws] == (Workspace {
            tabs: after.workspaces@[ws].tabs,
            ..before.workspaces@[ws]
        }),
        after == (Session {
            workspaces: after.workspaces,
            events: after.events,
            save_scheduled: true,
            tab_bar_stale: after.tab_bar_stale,
            ..before
        }),
        before.tab_bar_stale ==> after.tab_bar_stale,
{
}

/// A workspace that is there gets its new name, listeners are told and the session is to be saved;
/// nothing else changes. For one that is not there nothing changes at all.
pub proof fn law_workspaces_can_be_renamed(
    before: Session,
    after: Session,
    id: Seq<char>,
    label: String,
    body: Result<WorkspaceInfo, ApiError>,
    ws: int,
)
    requires
        workspace_rename_outcome(before, after, id, label, body),
        0 <= ws < before.workspaces@.len(),
    ensures
        workspace_is_there(before, id) ==> {
            &&& body matches Ok(info) && info.workspace_id@ == id && info.label@ == label@
            &&& after.events@.len() == before.events@.len() + 1
            &&& after.events@.last() matches Event::WorkspaceRenamed { workspace_id, label: told }
                && workspace_id@ == id && told@ == label@
            &&& after.save_scheduled
            &&& before.workspaces@[ws].id@ != id ==> after.workspaces@[ws] == before.workspaces@[ws]
            &&& after.workspaces@[ws] == before.workspaces@[ws] || after.workspaces@[ws] == (
            Workspace { custom_name: Some(label), ..before.workspaces@[ws] })
            &&& after == (Session {
                workspaces: after.workspaces,
                events: after.events,
                save_scheduled: true,
                ..before
            })
        },
        !workspace_is_there(before, id) ==> after == before && (body matches Err(e) && e.code@
            == "workspace_not_found"@ && e.message@ == "workspace "@ + id + " not found"@),
{
    lemma_workspace_found(before, id);
}

// ---------------------------------------------------------------------------------------------
// Moving
// ---------------------------------------------------------------------------------------------

proof fn lemma_followed<A>(s: Seq<A>, from: int, insert: int, i: int)
    requires
        0 <= from < s.len(),
        0 <= insert <= s.len(),
        0 <= i < s.len(),
    ensures
        0 <= followed(i, from, landing(from, insert)) < s.len(),
        moved(s, from, insert)[followed(i, from, landing(from, insert))] == s[i],
{
}

/// A tab that is there can be moved to any place up to the end of its workspace, and no further. Where
/// it is there already nothing changes.
pub proof fn law_tabs_can_be_moved(
    before: Session,
    after: Session,
    tab_id: Seq<char>,
    insert: usize,
    body: Result<Vec<TabInfo>, ApiError>,
)
    requires
        tab_move_outcome(before, after, tab_id, insert, body),
    ensures
        !tab_is_there(before, tab_id) ==> after == before && (body matches Err(e) && e.code@
            == "tab_not_found"@ && e.message@ == "tab "@ + tab_id + " not found"@),
        tab_in(before.workspaces@, tab_id) matches Some((ws, tab)) ==> {
            let n = before.workspaces@[ws].tabs@.len();
            &&& body is Ok <==> insert <= n
            &&& insert > n ==> after == before && (body matches Err(e) && e.code@
                == "tab_move_failed"@ && e.message@ == "insert_index "@ + crate::text::decimal(
                insert as nat,
            ) + " is out of bounds"@)
            &&& insert <= n && (insert == tab || insert == tab + 1) ==> after == before
            &&& insert <= n && insert != tab && insert != tab + 1 ==> tab_moved(
                before,
                after,
                ws,
                tab,
                insert as int,
            )
            &&& body matches Ok(infos) ==> infos@.len() == n
        },
{
    lemma_tab_found(before, tab_id);
}

/// A moved tab keeps what it is, and so does every other; the tab that was active stays active, and
/// nothing else of the session changes but what is told, saved and drawn.
pub proof fn law_moving_a_tab_leaves_the_rest(
    before: Session,
    after: Session,
    ws: int,
    tab: int,
    insert: int,
    i: int,
    w: int,
)
    requires
        tab_moved(before, after, ws, tab, insert),
        0 <= ws < before.workspaces@.len(),
        0 <= tab < before.workspaces@[ws].tabs@.len(),
        0 <= insert <= before.workspaces@[ws].tabs@.len(),
        0 <= i < before.workspaces@[ws].tabs@.len(),
        0 <= w < before.workspaces@.len(),
    ensures
        after.workspaces@[ws].tabs@.contains(before.workspaces@[ws].tabs@[i]),
        after.workspaces@[ws].tabs@.len() == before.workspaces@[ws].tabs@.len(),
        insert < before.workspaces@[ws].tabs@.len() && insert != tab ==> exists|k: int|
            0 <= k < after.workspaces@[ws].tabs@.len() - 1 && (
            #[trigger] after.workspaces@[ws].tabs@[k]) == before.workspaces@[ws].tabs@[tab]
                && after.workspaces@[ws].tabs@[k + 1] == before.workspaces@[ws].tabs@[insert],
        insert == before.workspaces@[ws].tabs@.len() ==> after.workspaces@[ws].tabs@.last()
            == before.workspaces@[ws].tabs@[tab],
        before.workspaces@[ws].active_tab == i ==> after.workspaces@[ws].active_tab
            < after.workspaces@[ws].tabs@.len()
            && after.workspaces@[ws].tabs@[after.workspaces@[ws].active_tab as int]
            == before.workspaces@[ws].tabs@[i],
        w != ws ==> after.workspaces@[w] == before.workspaces@[w],
        after == (Session {
            workspaces: after.workspaces,
            events: after.events,
            save_scheduled: true,
            tab_bar_stale: after.tab_bar_stale,
            tab_scroll_follow_active: after.tab_scroll_follow_active,
            ..before
        }),
        before.tab_bar_stale ==> after.tab_bar_stale,
        before.tab_scroll_follow_active ==> after.tab_scroll_follow_active,
{
    let s = before.workspaces@[ws].tabs@;
    let to = landing(tab, insert);
    lemma_followed(s, tab, insert, i);
    lemma_followed(s, tab, insert, tab);
    let all = after.workspaces@[ws].tabs@;
    assert(all[followed(i, tab, to)] == s[i]);
    assert(all[to] == s[tab]);
    crate::laws::session::law_moved_things_stand_before_their_anchor(s, tab, insert);
}

/// A workspace that is there can be moved to any place up to the end, and no further. Where it is
/// there already nothing changes.
pub proof fn law_workspaces_can_be_moved(
    before: Session,
    after: Session,
    id: Seq<char>,
    insert: usize,
    body: Result<Vec<WorkspaceInfo>, ApiError>,
)
    requires
        workspace_move_outcome(before, after, id, insert, body),
    ensures
        !workspace_is_there(before, id) ==> after == before && (body matches Err(e) && e.code@
            == "workspace_not_found"@ && e.message@ == "workspace "@ + id + " not found"@),
        workspace_at(before.workspaces@, id) matches Some(from) ==> {
            let n = before.workspaces@.len();
            &&& body is Ok <==> insert <= n
            &&& insert > n ==> after == before && (body matches Err(e) && e.code@
                == "workspace_move_failed"@ && e.message@ == "insert_index "@
                + crate::text::decimal(insert as nat) + " is out of bounds"@)
            &&& insert <= n && (insert == from || insert == from + 1) ==> after == before
            &&& insert <= n && insert != from && insert != from + 1 ==> workspace_moved(
                before,
                after,
                from,
                insert as int,
            )
            &&& body matches Ok(infos) ==> infos@.len() == n
        },
{
    lemma_workspace_found(before, id);
}

/// A moved workspace keeps what it is, and so does every other; it stands before the one it was sent
/// to, or at the end. The active workspace and the selected one stay so. Listeners are told where it
/// was sent, and the session is to be saved.
pub proof fn law_moving_a_workspace_leaves_the_rest(
    before: Session,
    after: Session,
    from: int,
    insert: int,
    i: int,
)
    requires
        workspace_moved(before, after, from, insert),
        0 <= from < before.workspaces@.len() <= usize::MAX,
        0 <= insert <= before.workspaces@.len(),
        0 <= i < before.workspaces@.len(),
    ensures
        after.workspaces@.len() == before.workspaces@.len(),
        after.workspaces@.contains(before.workspaces@[i]),
        insert < before.workspaces@.len() && insert != from ==> exists|k: int|
            0 <= k < after.workspaces@.len() - 1 && (#[trigger] after.workspaces@[k])
                == before.workspaces@[from] && after.workspaces@[k + 1]
                == before.workspaces@[insert],
        insert == before.workspaces@.len() ==> after.workspaces@.last() == before.workspaces@[from],
        before.active == Some(i as usize) ==> (after.active matches Some(a) && a
            < after.workspaces@.len() && after.workspaces@[a as int] == before.workspaces@[i]),
        before.active is None ==> after.active is None,
        before.selected == i ==> after.selected < after.workspaces@.len()
            && after.workspaces@[after.selected as int] == before.workspaces@[i],
        after.events@.drop_last() == before.events@,
        after.events@.last() matches Event::WorkspaceMoved { workspace_id, insert_index, workspaces }
            && workspace_id == before.workspaces@[from].id && insert_index == insert
            && workspaces@.len() == after.workspaces@.len(),
        after == (Session {
            workspaces: after.workspaces,
            events: after.events,
            active: after.active,
            selected: after.selected,
            save_scheduled: true,
            ..before
        }),
{
    let s = before.workspaces@;
    let to = landing(from, insert);
    lemma_followed(s, from, insert, i);
    lemma_followed(s, from, insert, from);
    assert(after.workspaces@[followed(i, from, to)] == s[i]);
    assert(after.workspaces@[to] == s[from]);
    crate::laws::session::law_moved_things_stand_before_their_anchor(s, from, insert);
    assert(after.events@.drop_last() =~= before.events@);
}

/// A block that can be moved is moved, unless every workspace is where it would be already, and then
/// nothing changes; and of one that cannot be moved it is told why, and nothing changes.
pub proof fn law_blocks_can_be_moved(
    before: Session,
    after: Session,
    params: WorkspaceMoveBlockParams,
    body: Result<Vec<WorkspaceInfo>, ApiError>,
)
    requires
        block_move_outcome(before, after, params, body),
    ensures
        block_move(before.workspaces@, params) matches Err(why) ==> after == before && (
        body matches Err(e) && e.code@ == why.code && e.message@ == why.message),
        block_move(before.workspaces@, params) matches Ok((block, at)) ==> {
            let order = block_order(before.workspaces@.len() as int, block, at);
            let moves = exists|i: int| 0 <= i < order.len() && #[trigger] order[i] != i;
            &&& body matches Ok(infos) && infos@.len() == after.workspaces@.len()
            &&& !moves ==> after == before
            &&& moves ==> block_moved(before, after, block, at, params.before_workspace_id)
        },
{
}

proof fn lemma_order_is_whole(n: int, block: Seq<int>, before: int)
    requires
        is_block(block, n),
        0 <= before <= n,
    ensures
        block_order(n, block, before).len() == n,
{
    let order = block_order(n, block, before);
    crate::moves::law_block_moves_keep_every_element(n, block, before);
    order.unique_seq_to_set();
    vstd::set_lib::lemma_int_range(0, n);
    let all = vstd::set_lib::set_int_range(0, n);
    assert forall|k: int| order.to_set().contains(k) <==> all.contains(k) by {
        if order.to_set().contains(k) {
            assert(order.contains(k));
        }
        if all.contains(k) {
            assert(order.contains(k));
        }
    }
    assert(order.to_set() =~= all);
}

/// A moved block and the rest stand in their order, each workspace as it was. The active workspace and
/// the selected one stay so. Listeners are told of the block and of what it was sent before.
pub proof fn law_moving_a_block_leaves_the_rest(
    before: Session,
    after: Session,
    block: Seq<int>,
    at: int,
    anchor: Option<String>,
    i: int,
)
    requires
        block_moved(before, after, block, at, anchor),
        is_block(block, before.workspaces@.len() as int),
        0 <= at <= before.workspaces@.len() <= usize::MAX,
        0 <= i < before.workspaces@.len(),
    ensures
        after.workspaces@.len() == before.workspaces@.len(),
        after.workspaces@.contains(before.workspaces@[i]),
        before.active == Some(i as usize) ==> (after.active matches Some(a) && a
            < after.workspaces@.len() && after.workspaces@[a as int] == before.workspaces@[i]),
        before.active is None ==> after.active is None,
        before.selected == i ==> after.selected < after.workspaces@.len()
            && after.workspaces@[after.selected as int] == before.workspaces@[i],
        after.events@.drop_last() == before.events@,
        after.events@.last() matches Event::WorkspaceReordered {
            workspace_ids,
            before_workspace_id,
            workspaces,
        } && {
            &&& workspace_ids@.len() == block.len()
            &&& 0 <= i < block.len() ==> workspace_ids@[i] == before.workspaces@[block[i]].id
            &&& anchor is Some ==> before_workspace_id == Some(before.workspaces@[at].id)
            &&& anchor is None ==> before_workspace_id is None
            &&& workspaces@.len() == after.workspaces@.len()
        },
        after == (Session {
            workspaces: after.workspaces,
            events: after.events,
            active: after.active,
            selected: after.selected,
            save_scheduled: true,
            ..before
        }),
{
    broadcast use lemma_first_where;

    let n = before.workspaces@.len() as int;
    let order = block_order(n, block, at);
    crate::moves::law_block_moves_keep_every_element(n, block, at);
    assert(order.contains(i));
    let k = choose|k: int| 0 <= k < order.len() && order[k] == i;
    assert(after.workspaces@[k] == before.workspaces@[i]);
    lemma_order_is_whole(n, block, at);
    let p = place_in(order, i);
    assert(order[k] == i);
    assert(0 <= p < order.len() && order[p] == i);
    assert(after.workspaces@[p] == before.workspaces@[i]);
    assert(after.events@.drop_last() =~= before.events@);
}

// ---------------------------------------------------------------------------------------------
// Making
// ---------------------------------------------------------------------------------------------

/// A new tab starts in the directory that is asked for; where none is, it follows the terminal that
/// has the focus in the workspace it is for.
pub proof fn law_new_tabs_start_where_they_are_asked_to(
    session: Session,
    params: TabCreateParams,
    planned: Result<TabPlan, ApiError>,
)
    requires
        tab_create_planned(session, params, planned),
    ensures
        target_workspace(session, opt_view(params.workspace_id)) matches Ok(ws) ==> (
        planned matches Ok(plan) && plan.workspace == ws && plan.cwd == params.cwd && (
        params.cwd is Some ==> plan.follow is None) && (params.cwd is None ==> {
            &&& session.workspaces@[ws].spec_focused_pane() is None ==> plan.follow is None
            &&& session.workspaces@[ws].spec_focused_pane() matches Some(pane) ==> (
            session.spec_terminal_of(ws, pane) matches Some(t) ==> plan.follow
                == t.spec_follow_cwd())
        })),
        target_workspace(session, opt_view(params.workspace_id)) matches Err(why) ==> (
        planned matches Err(e) && e.code@ == why.code && e.message@ == why.message),
{
}

/// A new tab is answered with its own info and that of its pane, and listeners are told of the tab and
/// then of the pane. Where there is no workspace for it, or its terminal failed to start, nothing
/// changes and it is told why.
pub proof fn law_new_tabs_are_answered(
    before: Session,
    after: Session,
    params: TabCreateParams,
    started: Result<NewPane, String>,
    body: Result<CreatedTab, ApiError>,
)
    requires
        tab_create_outcome(before, after, params, started, body),
    ensures
        target_workspace(before, opt_view(params.workspace_id)) matches Err(why) ==> after == before
            && (body matches Err(e) && e.code@ == why.code && e.message@ == why.message),
        target_workspace(before, opt_view(params.workspace_id)) matches Ok(ws) ==> {
            &&& started matches Err(problem) ==> after == before && (body matches Err(e) && e.code@
                == "tab_create_failed"@ && e.message@ == problem@)
            &&& started matches Ok(pane) ==> {
                let n = before.events@.len() as int;
                &&& tab_added(before, after, ws, pane, params.label, params.focus)
                &&& body matches Ok(made) && made.tab.tab_id == pane.public_tab_id && is_pane_info(
                    made.root_pane,
                    after,
                    ws,
                    pane.pane,
                )
                &&& after.events@.len() == n + 2
                &&& after.events@.take(n) == before.events@
                &&& after.events@[n] matches Event::TabCreated { tab } && tab.tab_id
                    == pane.public_tab_id && tab.workspace_id == after.workspaces@[ws].id
                &&& after.events@[n + 1] matches Event::PaneCreated { pane: told } && is_pane_info(
                    told,
                    after,
                    ws,
                    pane.pane,
                )
            }
        },
{
}

/// A new tab's pane counts as looked at, and the tab is not zoomed. No other workspace changes, and of
/// its own nothing but its tabs and which is active.
pub proof fn law_adding_a_tab_leaves_the_rest(
    before: Session,
    after: Session,
    ws: int,
    pane: NewPane,
    label: Option<String>,
    focus: bool,
    w: int,
)
    requires
        tab_added(before, after, ws, pane, label, focus),
        0 <= ws < before.workspaces@.len(),
        0 <= w < before.workspaces@.len(),
    ensures
        after.workspaces@[ws].tabs@.last().panes@[0].seen,
        !after.workspaces@[ws].tabs@.last().zoomed,
        w != ws ==> after.workspaces@[w] == before.workspaces@[w],
        after.workspaces@.len() == before.workspaces@.len(),
        after.workspaces@[ws] == (Workspace {
            tabs: after.workspaces@[ws].tabs,
            active_tab: after.workspaces@[ws].active_tab,
            ..before.workspaces@[ws]
        }),
        after == (Session {
            workspaces: after.workspaces,
            terminals: after.terminals,
            pane_aliases: after.pane_aliases,
            events: after.events,
            active: after.active,
            selected: after.selected,
            mode: after.mode,
            save_scheduled: true,
            ..before
        }),
{
}

/// A new workspace follows the one in use only where no directory is asked for.
pub proof fn law_new_workspaces_start_where_they_are_asked_to(
    session: Session,
    cwd: Option<String>,
    plan: WorkspacePlan,
)
    requires
        workspace_create_planned(session, cwd, plan),
    ensures
        plan.cwd == cwd,
        cwd is Some ==> plan.follow is None,
        cwd is None && session.spec_creation_source() is None ==> plan.follow is None,
        cwd is None ==> (session.spec_creation_source() matches Some(ws) ==> plan.follow
            == session.spec_creation_cwd(ws as int)),
{
}

/// A workspace made from the interface is made at once unless its name is asked for first; where it
/// follows another, that other is remembered by its id.
pub proof fn law_names_are_asked_for_first(
    session: Session,
    ask: bool,
    policy: CwdPolicy,
    cwd: String,
    step: NewWorkspaceStep,
)
    requires
        is_first_step(session, ask, policy, cwd, step),
    ensures
        step is Create <==> !ask,
        ask && !(policy is Follow) ==> step == NewWorkspaceStep::AskForName(
            PendingCwd::Resolved(cwd),
        ),
        ask && policy is Follow ==> (step matches NewWorkspaceStep::AskForName(
            PendingCwd::Follow { source_workspace_id, suggested_cwd },
        ) && suggested_cwd == cwd && (session.spec_creation_source() is None
            ==> source_workspace_id is None) && (session.spec_creation_source() matches Some(ws)
            ==> (ws < session.workspaces@.len() ==> source_workspace_id == Some(
            session.workspaces@[ws as int].id,
        )))),
{
}

/// After a workspace was made from the interface its terminal is in front, where there is one.
pub proof fn law_the_terminal_is_in_front_of_a_new_workspace(before: Session, after: Session)
    requires
        shown_after_create(before, after),
    ensures
        before.active is Some ==> after.mode == Mode::Terminal,
        before.active is None ==> after.mode == Mode::Navigate,
        after == (Session { mode: after.mode, ..before }),
{
}

/// A new workspace is answered with the infos of it, of its tab and of its pane, and listeners are told
/// of these, in this order. Where its terminal failed to start nothing changes and it is told why.
pub proof fn law_new_workspaces_are_answered(
    before: Session,
    after: Session,
    label: Option<String>,
    focus: bool,
    started: Result<NewWorkspace, String>,
    body: Result<CreatedWorkspace, ApiError>,
)
    requires
        workspace_create_outcome(before, after, label, focus, started, body),
    ensures
        started matches Err(problem) ==> after == before && (body matches Err(e) && e.code@
            == "workspace_create_failed"@ && e.message@ == problem@),
        started matches Ok(made) ==> {
            let n = before.events@.len() as int;
            let at = before.workspaces@.len() as int;
            &&& workspace_added(before, after, made, label, None, focus)
            &&& body matches Ok(told) && told.workspace.workspace_id == made.id && told.tab.tab_id
                == made.pane.public_tab_id && is_pane_info(told.root_pane, after, at, made.pane.pane)
            &&& after.events@.len() == n + 3
            &&& after.events@.take(n) == before.events@
            &&& after.events@[n] matches Event::WorkspaceCreated { workspace }
                && workspace.workspace_id == made.id
            &&& after.events@[n + 1] matches Event::TabCreated { tab } && tab.tab_id
                == made.pane.public_tab_id
            &&& after.events@[n + 2] matches Event::PaneCreated { pane } && is_pane_info(
                pane,
                after,
                at,
                made.pane.pane,
            )
        },
{
}

/// A new workspace has the ids of the pane that was started for it, its pane counts as looked at, and
/// no producer has reported for it. Nothing else of the session changes.
pub proof fn law_adding_a_workspace_leaves_the_rest(
    before: Session,
    after: Session,
    made: NewWorkspace,
    label: Option<String>,
    tab_label: Option<String>,
    focus: bool,
)
    requires
        workspace_added(before, after, made, label, tab_label, focus),
    ensures
        after.workspaces@.last().tabs@[0].public_id == made.pane.public_tab_id,
        after.workspaces@.last().tabs@[0].root_pane == made.pane.pane,
        after.workspaces@.last().tabs@[0].panes@[0].seen,
        !after.workspaces@.last().tabs@[0].zoomed,
        after.workspaces@.last().tokens.sequences@.len() == 0,
        after == (Session {
            workspaces: after.workspaces,
            terminals: after.terminals,
            pane_aliases: after.pane_aliases,
            events: after.events,
            active: after.active,
            selected: after.selected,
            mode: after.mode,
            save_scheduled: true,
            ..before
        }),
{
}

// ---------------------------------------------------------------------------------------------
// Closing
// ---------------------------------------------------------------------------------------------

/// The tab that is active stays active when another is closed; copy mode ends where its pane goes; no
/// other workspace changes, nor anything else of the session but its terminals.
pub proof fn law_closing_a_tab_leaves_the_rest(
    before: Session,
    after: Session,
    ws: int,
    tab: int,
    w: int,
)
    requires
        tab_closed(before, after, ws, tab),
        0 <= ws < before.workspaces@.len(),
        0 <= tab < before.workspaces@[ws].tabs@.len(),
        before.workspaces@[ws].active_tab < before.workspaces@[ws].tabs@.len(),
        before.workspaces@[ws].tabs@.len() > 1,
        0 <= w < before.workspaces@.len(),
    ensures
        before.workspaces@[ws].active_tab != tab ==> after.workspaces@[ws].active_tab
            < after.workspaces@[ws].tabs@.len()
            && after.workspaces@[ws].tabs@[after.workspaces@[ws].active_tab as int]
            == before.workspaces@[ws].tabs@[before.workspaces@[ws].active_tab as int],
        w != ws ==> after.workspaces@[w] == before.workspaces@[w],
        after.workspaces@[ws] == (Workspace {
            tabs: after.workspaces@[ws].tabs,
            active_tab: after.workspaces@[ws].active_tab,
            ..before.workspaces@[ws]
        }),
        before.copy_mode_pane is None ==> after.copy_mode_pane is None,
        before.copy_mode_pane matches Some(pane) ==> after.copy_mode_pane == if exists|i: int|
            0 <= i < before.workspaces@[ws].tabs@[tab].panes@.len() && (
            #[trigger] before.workspaces@[ws].tabs@[tab].panes@[i]).id == pane {
            None
        } else {
            Some(pane)
        },
        after == (Session {
            workspaces: after.workspaces,
            terminals: after.terminals,
            terminal_shutdowns: after.terminal_shutdowns,
            copy_mode_pane: after.copy_mode_pane,
            ..before
        }),
{
    broadcast use lemma_first_where;

    let panes = before.workspaces@[ws].tabs@[tab].panes@;
    if let Some(pane) = before.copy_mode_pane {
        lemma_pane_there(panes, pane);
    }
}

proof fn lemma_pane_there(panes: Seq<Pane>, pane: u64)
    ensures
        pane_at(panes, pane) is Some <==> exists|i: int|
            0 <= i < panes.len() && (#[trigger] panes[i]).id == pane,
{
    broadcast use lemma_first_where;

    if let Some(i) = pane_at(panes, pane) {
        assert(panes[i].id == pane);
    }
}

proof fn lemma_tabs_hold(tabs: Seq<Tab>, pane: u64)
    ensures
        tabs_panes_hold(tabs, pane) <==> crate::laws::lookup::tabs_have(tabs, pane),
{
    broadcast use lemma_first_where;

    if tabs_panes_hold(tabs, pane) {
        let t = choose|t: int|
            0 <= t < tabs.len() && pane_at((#[trigger] tabs[t]).panes@, pane) is Some;
        lemma_pane_there(tabs[t].panes@, pane);
        let i = choose|i: int|
            0 <= i < tabs[t].panes@.len() && (#[trigger] tabs[t].panes@[i]).id == pane;
        assert(tabs[t].panes@[i].id == pane);
    }
    if crate::laws::lookup::tabs_have(tabs, pane) {
        let (t, i) = choose|t: int, i: int|
            0 <= t < tabs.len() && 0 <= i < tabs[t].panes@.len() && (
            #[trigger] tabs[t].panes@[i]).id == pane;
        lemma_pane_there(tabs[t].panes@, pane);
        assert(pane_at(tabs[t].panes@, pane) is Some);
    }
}

/// The workspace that is active stays active when another is closed; copy mode ends where its pane
/// goes; nothing else of the session changes but its terminals and that it is to be saved.
pub proof fn law_closing_a_workspace_leaves_the_rest(before: Session, after: Session, ws: int)
    requires
        workspace_closed(before, after, ws),
        0 <= ws < before.workspaces@.len() <= usize::MAX,
        before.active matches Some(a) ==> a < before.workspaces@.len(),
    ensures
        before.active matches Some(a) ==> (a != ws ==> (after.active matches Some(b) && b
            < after.workspaces@.len() && after.workspaces@[b as int] == before.workspaces@[a as int])),
        before.copy_mode_pane is None ==> after.copy_mode_pane is None,
        before.copy_mode_pane matches Some(pane) ==> after.copy_mode_pane
            == if crate::laws::lookup::tabs_have(before.workspaces@[ws].tabs@, pane) {
            None
        } else {
            Some(pane)
        },
        after == (Session {
            workspaces: after.workspaces,
            terminals: after.terminals,
            terminal_shutdowns: after.terminal_shutdowns,
            copy_mode_pane: after.copy_mode_pane,
            active: after.active,
            selected: after.selected,
            save_scheduled: true,
            ..before
        }),
{
    if let Some(pane) = before.copy_mode_pane {
        lemma_tabs_hold(before.workspaces@[ws].tabs@, pane);
    }
}

/// A tab that may be closed is closed, with its workspace where it is the only one; listeners are told
/// and the session is to be saved. One that may not be is left as it is.
pub proof fn law_tabs_can_be_closed(
    before: Session,
    after: Session,
    tab_id: Seq<char>,
    confirm: bool,
    r: Response<()>,
)
    requires
        tab_close_outcome(before, after, tab_id, confirm, r),
    ensures
        r.body is Err ==> after == before,
        !tab_is_there(before, tab_id) ==> (r.body matches Err(e) && e.code@ == "tab_not_found"@
            && e.message@ == "tab "@ + tab_id + " not found"@),
        tab_in(before.workspaces@, tab_id) matches Some((ws, tab)) ==> {
            let only = before.workspaces@[ws].tabs@.len() == 1;
            &&& r.body is Err <==> only && confirm
            &&& r.body is Err ==> (r.body matches Err(e) && e.code@ == "confirmation_required"@)
            &&& r.body is Ok ==> {
                let n = before.events@.len() as int;
                &&& after.save_scheduled
                &&& after.events@.take(n) == before.events@
                &&& after.events@[n] matches Event::TabClosed { tab_id: told, workspace_id }
                    && told@ == tab_id && workspace_id == before.workspaces@[ws].id
                &&& only ==> after.events@.len() == n + 2 && (
                after.events@[n + 1] matches Event::WorkspaceClosed { workspace_id } && workspace_id
                    == before.workspaces@[ws].id) && after.workspaces@
                    == before.workspaces@.remove(ws)
                &&& !only ==> after.events@.len() == n + 1 && after.workspaces@.len()
                    == before.workspaces@.len() && after.workspaces@[ws].tabs@
                    == before.workspaces@[ws].tabs@.remove(tab)
            }
        },
{
    lemma_tab_found(before, tab_id);
    if r.body is Ok && tab_in(before.workspaces@, tab_id) is Some {
        let n = before.events@.len() as int;
        assert(after.events@.take(n) =~= before.events@);
    }
}

/// A workspace that is there is closed, and listeners are told; for one that is not there nothing
/// changes and its name is told.
pub proof fn law_workspaces_can_be_closed(
    before: Session,
    after: Session,
    id: Seq<char>,
    body: Result<(), ApiError>,
)
    requires
        workspace_close_outcome(before, after, id, body),
    ensures
        workspace_at(before.workspaces@, id) matches Some(ws) ==> {
            &&& body is Ok
            &&& after.workspaces@ == before.workspaces@.remove(ws)
            &&& after.events@.len() == before.events@.len() + 1
            &&& after.events@.last() matches Event::WorkspaceClosed { workspace_id }
                && workspace_id@ == id
            &&& after.save_scheduled
        },
        !workspace_is_there(before, id) ==> after == before && (body matches Err(e) && e.code@
            == "workspace_not_found"@ && e.message@ == "workspace "@ + id + " not found"@),
{
    lemma_workspace_found(before, id);
}

/// Some pane of the tabs shows the terminal.
pub open spec fn tabs_show_terminal(tabs: Seq<Tab>, id: Seq<char>) -> bool {
    exists|t: int, i: int|
        0 <= t < tabs.len() && 0 <= i < tabs[t].panes@.len() && (
        #[trigger] tabs[t].panes@[i]).terminal_id@ == id
}

proof fn lemma_terminal_ids(tabs: Seq<Tab>, id: String)
    ensures
        tabs_terminal_ids(tabs).contains(id) <==> exists|t: int, i: int|
            0 <= t < tabs.len() && 0 <= i < tabs[t].panes@.len() && (
            #[trigger] tabs[t].panes@[i]).terminal_id == id,
    decreases tabs.len(),
{
    let all = tabs_terminal_ids(tabs);
    if tabs.len() > 0 {
        let n = tabs.len() - 1;
        let head = tabs.drop_last();
        let before = tabs_terminal_ids(head);
        let own = terminal_ids(tabs.last().panes@);
        lemma_terminal_ids(head, id);
        assert(all == before + own);
        assert(tabs[n] == tabs.last());
        if before.contains(id) {
            let k = choose|k: int| 0 <= k < before.len() && before[k] == id;
            assert(all[k] == id);
            let (t, i) = choose|t: int, i: int|
                0 <= t < head.len() && 0 <= i < head[t].panes@.len() && (
                #[trigger] head[t].panes@[i]).terminal_id == id;
            assert(tabs[t] == head[t]);
            assert(tabs[t].panes@[i].terminal_id == id);
        }
        if own.contains(id) {
            let k = choose|k: int| 0 <= k < own.len() && own[k] == id;
            assert(all[before.len() + k] == id);
            assert(tabs[n].panes@[k].terminal_id == id);
        }
        if all.contains(id) {
            let k = choose|k: int| 0 <= k < all.len() && all[k] == id;
            if k < before.len() {
                assert(before[k] == id);
            } else {
                assert(own[k - before.len()] == id);
            }
        }
        if exists|t: int, i: int|
            0 <= t < tabs.len() && 0 <= i < tabs[t].panes@.len() && (
            #[trigger] tabs[t].panes@[i]).terminal_id == id {
            let (t, i) = choose|t: int, i: int|
                0 <= t < tabs.len() && 0 <= i < tabs[t].panes@.len() && (
                #[trigger] tabs[t].panes@[i]).terminal_id == id;
            if t < n {
                assert(head[t] == tabs[t]);
                assert(head[t].panes@[i].terminal_id == id);
            } else {
                assert(own[i] == id);
            }
        }
    } else {
        assert(all.len() == 0);
    }
}

/// Closing a workspace lets go of the terminals that its panes showed and none that is left shows, and
/// of no others.
pub proof fn law_closing_a_workspace_lets_its_terminals_go(
    before: Session,
    after: Session,
    ws: int,
    terminal: Terminal,
)
    requires
        workspace_closed(before, after, ws),
        0 <= ws < before.workspaces@.len(),
    ensures
        after.terminals@.contains(terminal) <==> before.terminals@.contains(terminal) && (shown(
            after.workspaces@,
            terminal.id@,
        ) || !tabs_show_terminal(before.workspaces@[ws].tabs@, terminal.id@)),
{
    let tabs = before.workspaces@[ws].tabs@;
    let ids = tabs_terminal_ids(tabs);
    law_terminals_go_with_their_last_pane(
        before.terminals@,
        after.workspaces@,
        ids,
        terminal,
        terminal.id,
    );
    if tabs_show_terminal(tabs, terminal.id@) {
        let (t, i) = choose|t: int, i: int|
            0 <= t < tabs.len() && 0 <= i < tabs[t].panes@.len() && (
            #[trigger] tabs[t].panes@[i]).terminal_id@ == terminal.id@;
        let id = tabs[t].panes@[i].terminal_id;
        lemma_terminal_ids(tabs, id);
        assert(ids.contains(id));
        let k = choose|k: int| 0 <= k < ids.len() && ids[k] == id;
        assert(ids[k]@ == terminal.id@);
    } else {
        assert forall|k: int| 0 <= k < ids.len() implies (#[trigger] ids[k])@ != terminal.id@ by {
            lemma_terminal_ids(tabs, ids[k]);
            assert(ids.contains(ids[k]));
            let (t, i) = choose|t: int, i: int|
                0 <= t < tabs.len() && 0 <= i < tabs[t].panes@.len() && (
                #[trigger] tabs[t].panes@[i]).terminal_id == ids[k];
            assert(tabs[t].panes@[i].terminal_id@ == ids[k]@);
        }
    }
}

/// The terminals that go with what is closed are to be shut down, after those that were already to be;
/// one that is still shown is not.
pub proof fn law_terminals_that_go_are_shut_down(
    before: Session,
    after: Session,
    ids: Seq<String>,
    id: String,
)
    requires
        terminals_let_go(before, after, ids),
    ensures
        before.terminal_shutdowns@.is_prefix_of(after.terminal_shutdowns@),
        after.terminal_shutdowns@.contains(id) <==> before.terminal_shutdowns@.contains(id) || (
        ids.contains(id) && !shown(after.workspaces@, id@)),
{
    let was = before.terminal_shutdowns@;
    let more = unshown(after.workspaces@, ids);
    let all = after.terminal_shutdowns@;
    lemma_unshown(after.workspaces@, ids, id);
    assert(was =~= all.subrange(0, was.len() as int));
    if was.contains(id) {
        let k = choose|k: int| 0 <= k < was.len() && was[k] == id;
        assert(all[k] == id);
    }
    if more.contains(id) {
        let k = choose|k: int| 0 <= k < more.len() && more[k] == id;
        assert(all[was.len() + k] == id);
    }
    if all.contains(id) {
        let k = choose|k: int| 0 <= k < all.len() && all[k] == id;
        if k < was.len() {
            assert(was[k] == id);
        } else {
            assert(more[k - was.len()] == id);
        }
    }
}

proof fn lemma_unshown(ws: Seq<Workspace>, ids: Seq<String>, id: String)
    ensures
        unshown(ws, ids).contains(id) <==> ids.contains(id) && !shown(ws, id@),
{
    crate::laws::session::lemma_filtered(ids, |id: String| !shown(ws, id@), id);
}

/// What is closed lets go of the terminals that its own panes showed.
pub proof fn law_what_is_closed_lets_its_own_terminals_go(
    before: Session,
    after: Session,
    ws: int,
    tab: int,
    id: String,
)
    ensures
        tab_closed(before, after, ws, tab) ==> terminals_let_go(
            before,
            after,
            before.workspaces@[ws].tabs@[tab].panes@.map_values(|p: Pane| p.terminal_id),
        ),
        workspace_closed(before, after, ws) ==> terminals_let_go(
            before,
            after,
            tabs_terminal_ids(before.workspaces@[ws].tabs@),
        ),
        tabs_terminal_ids(before.workspaces@[ws].tabs@).contains(id) <==> exists|t: int, i: int|
            0 <= t < before.workspaces@[ws].tabs@.len() && 0 <= i
                < before.workspaces@[ws].tabs@[t].panes@.len() && (
            #[trigger] before.workspaces@[ws].tabs@[t].panes@[i]).terminal_id == id,
{
    lemma_terminal_ids(before.workspaces@[ws].tabs@, id);
}

/// A new tab is told of, and then its pane, after what was told before; nothing else changes.
pub proof fn law_new_tabs_are_told_of(
    before: Session,
    after: Session,
    ws: int,
    tab: int,
    pane: u64,
)
    requires
        new_tab_told(before, after, ws, tab, pane),
    ensures
        after == (Session { events: after.events, ..before }),
        after.events@.len() == before.events@.len() + 2,
        after.events@.take(before.events@.len() as int) == before.events@,
        after.events@[before.events@.len() as int] matches Event::TabCreated { tab: told }
            && is_tab_info(told, after, ws, tab),
        after.events@[before.events@.len() as int + 1] matches Event::PaneCreated { pane: told }
            && is_pane_info(told, after, ws, pane),
{
}

/// A pane whose terminal is not there adds nothing to the status of its tab; any other adds that of its
/// terminal, done where it is idle and was not looked at.
pub proof fn law_what_a_pane_adds_to_the_status(terminals: Seq<Terminal>, pane: Pane, i: int)
    ensures
        (forall|k: int|
            0 <= k < terminals.len() ==> (#[trigger] terminals[k]).id@ != pane.terminal_id@)
            ==> pane_status(terminals, pane) == AgentStatus::Unknown,
        0 <= i < terminals.len() && terminals[i].id@ == pane.terminal_id@ && (forall|k: int|
            0 <= k < i ==> (#[trigger] terminals[k]).id@ != pane.terminal_id@) ==> pane_status(
            terminals,
            pane,
        ) == status_of(terminals[i].state, pane.seen),
{
    broadcast use lemma_first_where;

}

/// Things are counted as they are, as far as there are numbers for them.
pub proof fn law_counts_are_as_they_are(n: nat)
    ensures
        n <= usize::MAX ==> counted(n) == n,
        n > usize::MAX ==> counted(n) == usize::MAX,
{
}

} // verus!
