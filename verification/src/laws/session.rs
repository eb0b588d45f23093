//! Tabs and workspaces: what a request changes of them, and what it must leave alone.

use vstd::prelude::*;
use crate::closing::{left_terminals, names, shown, tab_closed, unshown, workspace_closed};
use crate::creation::{start_of, usable, Candidate, CwdPolicy};
use crate::focus::focus_moved;
use crate::info::{
    attention, has_info, is_pane_info, is_receiver, is_session_of, is_tab_info, is_workspace_info,
    pane_total, panes_status, receiver_of, status_of, tabs_status, told_panes, told_tabs,
    told_workspaces, AgentSessionInfo, AgentStatus, AuthoritativeReceiver, PaneInfo, TabInfo,
    WorkspaceInfo,
};
use crate::moves::{block_order, followed, is_block, landing, lemma_outside, moved, outside};
use crate::response::{insert_out_of_bounds, pane_missing, tab_missing, workspace_missing, Refusal};
use crate::session::{
    tab_in, tab_of_pane, workspace_at, AgentState, Event, Mode, Pane, PaneAlias, Session, Tab, Terminal,
    Workspace,
};
use crate::tabs::{
    close_events, close_refusal, focused_follow, tab_added, tab_moved, tab_renamed,
    target_workspace, NewPane,
};
use crate::text::decimal;
use crate::workspaces::{
    block_move, block_of, workspace_added, NewWorkspace, WorkspaceMoveBlockParams,
};

verus! {

// ---------------------------------------------------------------------------------------------
// Replies
// ---------------------------------------------------------------------------------------------

/// What is not there is named in the reply, and so is a place that is out of bounds.
pub proof fn law_missing_things_are_named(id: Seq<char>, code: Seq<char>, index: nat)
    ensures
        workspace_missing(id).code == "workspace_not_found"@,
        workspace_missing(id).message == "workspace "@ + id + " not found"@,
        tab_missing(id).code == "tab_not_found"@,
        tab_missing(id).message == "tab "@ + id + " not found"@,
        pane_missing(id).code == "pane_not_found"@,
        pane_missing(id).message == "pane "@ + id + " not found"@,
        insert_out_of_bounds(code, index).code == code,
        insert_out_of_bounds(code, index).message == "insert_index "@ + decimal(index)
            + " is out of bounds"@,
{
}

// ---------------------------------------------------------------------------------------------
// Focus
// ---------------------------------------------------------------------------------------------

/// The focus goes where it is sent: to that workspace, that tab and that pane. The panes of the tab
/// count as looked at and are otherwise as they were; nothing else changes.
pub proof fn law_focus_goes_where_it_is_sent(
    before: Session,
    after: Session,
    ws: int,
    tab: int,
    pane: u64,
    i: int,
)
    requires
        focus_moved(before, after, ws, tab, pane),
        0 <= ws < before.workspaces@.len() <= usize::MAX,
        0 <= tab < before.workspaces@[ws].tabs@.len(),
        0 <= i < before.workspaces@[ws].tabs@[tab].panes@.len(),
    ensures
        after.active matches Some(a) && a == ws,
        after.selected == ws,
        ({
            let w = after.workspaces@[ws];
            let was = before.workspaces@[ws].tabs@[tab];
            &&& w.active_tab == tab
            &&& w.id == before.workspaces@[ws].id
            &&& w.tabs@[tab].focused == pane
            &&& w.tabs@[tab].public_id == was.public_id
            &&& w.tabs@[tab].zoomed == was.zoomed
            &&& w.tabs@[tab].panes@.len() == was.panes@.len()
            &&& w.tabs@[tab].panes@[i].seen
            &&& w.tabs@[tab].panes@[i].id == was.panes@[i].id
            &&& w.tabs@[tab].panes@[i].public_id == was.panes@[i].public_id
            &&& w.tabs@[tab].panes@[i].terminal_id == was.panes@[i].terminal_id
        }),
        after.terminals == before.terminals,
        after.events == before.events,
        after.mode == before.mode,
{
}

/// Focusing a workspace focuses its active tab, at the pane that had the focus in it.
pub proof fn law_a_focused_workspace_keeps_its_tab(before: Session, after: Session, ws: int)
    requires
        before.workspace_focused(after, ws),
        0 <= ws < before.workspaces@.len() <= usize::MAX,
    ensures
        after.active matches Some(a) && a == ws,
        after.selected == ws,
        after.workspaces@[ws].active_tab == before.workspaces@[ws].active_tab,
        after.workspaces@[ws].spec_focused_pane() == before.workspaces@[ws].spec_focused_pane(),
        after.workspaces@.len() == before.workspaces@.len(),
{
}

// ---------------------------------------------------------------------------------------------
// Moving
// ---------------------------------------------------------------------------------------------

/// What is moved before something stands right before it; moved to the end, it is the last. What is
/// moved before itself, or before what follows it, stays.
pub proof fn law_moved_things_stand_before_their_anchor<A>(s: Seq<A>, from: int, insert: int)
    requires
        0 <= from < s.len(),
        0 <= insert <= s.len(),
    ensures
        moved(s, from, insert).len() == s.len(),
        moved(s, from, insert)[landing(from, insert)] == s[from],
        insert < s.len() && insert != from ==> landing(from, insert) + 1 < s.len() && moved(
            s,
            from,
            insert,
        )[landing(from, insert) + 1] == s[insert],
        insert == s.len() ==> landing(from, insert) == s.len() - 1,
        landing(from, insert) == from <==> insert == from || insert == from + 1,
        followed(from, from, landing(from, insert)) == landing(from, insert),
{
}

/// A block stands together, in its own order, right before its anchor; with none, at the end.
pub proof fn law_a_block_stands_before_its_anchor(n: int, block: Seq<int>, before: int)
    requires
        is_block(block, n),
        0 <= before <= n,
        before < n ==> !block.contains(before),
    ensures
        ({
            let at = outside(block, 0, before).len() as int;
            let order = block_order(n, block, before);
            &&& order.subrange(at, at + block.len()) == block
            &&& before < n ==> at + block.len() < order.len() && order[at + block.len()] == before
            &&& before == n ==> at + block.len() == order.len()
        }),
{
    lemma_outside(block, 0, before);
    lemma_outside(block, before, n);
    let head = outside(block, 0, before);
    let tail = outside(block, before, n);
    let order = block_order(n, block, before);
    let at = head.len() as int;
    assert(order.subrange(at, at + block.len()) =~= block);
    if before < n {
        assert(tail.contains(before));
        let k = choose|k: int| 0 <= k < tail.len() && tail[k] == before;
        if k > 0 {
            assert(tail[0] < tail[k]);
        }
        assert(order[at + block.len()] == tail[0]);
    }
}

/// A block can be moved exactly when it names some workspaces, each of them there and each once,
/// and its anchor, where it has one, is there and not one of them.
pub proof fn law_blocks_that_can_be_moved(ws: Seq<Workspace>, params: WorkspaceMoveBlockParams)
    ensures
        block_move(ws, params) is Ok <==> {
            let ids = params.workspace_ids@;
            &&& ids.len() > 0
            &&& forall|i: int|
                0 <= i < ids.len() ==> workspace_at(ws, (#[trigger] ids[i])@) is Some
            &&& forall|i: int, j: int|
                0 <= i < j < ids.len() ==> workspace_at(ws, (#[trigger] ids[i])@) != workspace_at(
                    ws,
                    (#[trigger] ids[j])@,
                )
            &&& params.before_workspace_id matches Some(anchor) ==> workspace_at(ws, anchor@) is Some
                && forall|i: int|
                0 <= i < ids.len() ==> workspace_at(ws, (#[trigger] ids[i])@) != workspace_at(
                    ws,
                    anchor@,
                )
        },
        block_move(ws, params) matches Ok((block, at)) ==> {
            &&& block.len() == params.workspace_ids@.len()
            &&& forall|i: int|
                0 <= i < block.len() ==> workspace_at(ws, params.workspace_ids@[i]@) == Some(
                    #[trigger] block[i],
                )
            &&& params.before_workspace_id is None ==> at == ws.len()
            &&& params.before_workspace_id matches Some(anchor) ==> workspace_at(ws, anchor@)
                == Some(at)
        },
        params.workspace_ids@.len() == 0 ==> (block_move(ws, params) matches Err(e) && e.code
            == "workspace_move_block_failed"@ && e.message == "workspace_ids must not be empty"@),
{
    lemma_block_of_is(ws, params.workspace_ids@);
    let ids = params.workspace_ids@;
    match block_of(ws, ids) {
        Ok(block) => {
            match params.before_workspace_id {
                Some(anchor) => {
                    if workspace_at(ws, anchor@) is Some {
                        let a = workspace_at(ws, anchor@)->Some_0;
                        if block.contains(a) {
                            let i = choose|i: int| 0 <= i < block.len() && block[i] == a;
                            assert(workspace_at(ws, ids[i]@) == Some(block[i]));
                        } else {
                            assert forall|i: int| 0 <= i < ids.len() implies workspace_at(
                                ws,
                                (#[trigger] ids[i])@,
                            ) != workspace_at(ws, anchor@) by {
                                assert(workspace_at(ws, ids[i]@) == Some(block[i]));
                                assert(block.contains(block[i]));
                            }
                        }
                    }
                },
                None => {},
            }
        },
        Err(_) => {},
    }
}

proof fn lemma_block_of_is(ws: Seq<Workspace>, ids: Seq<String>)
    ensures
        block_of(ws, ids) is Ok <==> {
            &&& forall|i: int|
                0 <= i < ids.len() ==> workspace_at(ws, (#[trigger] ids[i])@) is Some
            &&& forall|i: int, j: int|
                0 <= i < j < ids.len() ==> workspace_at(ws, (#[trigger] ids[i])@) != workspace_at(
                    ws,
                    (#[trigger] ids[j])@,
                )
        },
        block_of(ws, ids) matches Ok(block) ==> block.len() == ids.len() && forall|i: int|
            0 <= i < block.len() ==> workspace_at(ws, ids[i]@) == Some(#[trigger] block[i]),
    decreases ids.len(),
{
    if ids.len() > 0 {
        let head = ids.drop_last();
        let n = ids.len() - 1;
        lemma_block_of_is(ws, head);
        assert(forall|i: int| 0 <= i < n ==> head[i] == #[trigger] ids[i]);
        assert(ids[n] == ids.last());
        if block_of(ws, head) is Ok {
            let block = block_of(ws, head)->Ok_0;
            match workspace_at(ws, ids.last()@) {
                Some(a) => {
                    if block.contains(a) {
                        let i = choose|i: int| 0 <= i < block.len() && block[i] == a;
                        assert(workspace_at(ws, head[i]@) == Some(block[i]));
                        assert(workspace_at(ws, ids[i]@) == workspace_at(ws, ids[n]@));
                    } else {
                        let longer = block.push(a);
                        assert forall|i: int| 0 <= i < longer.len() implies workspace_at(
                            ws,
                            ids[i]@,
                        ) == Some(#[trigger] longer[i]) by {
                            if i < n {
                                assert(longer[i] == block[i]);
                                assert(head[i] == ids[i]);
                            }
                        }
                        assert forall|i: int, j: int| 0 <= i < j < ids.len() implies workspace_at(
                            ws,
                            (#[trigger] ids[i])@,
                        ) != workspace_at(ws, (#[trigger] ids[j])@) by {
                            assert(workspace_at(ws, ids[i]@) == Some(longer[i]));
                            assert(workspace_at(ws, ids[j]@) == Some(longer[j]));
                            if j < n {
                                assert(head[i] == ids[i] && head[j] == ids[j]);
                            } else {
                                assert(block.contains(block[i]));
                            }
                        }
                    }
                },
                None => {
                    assert(workspace_at(ws, ids[n]@) is None);
                },
            }
        } else {
            if (forall|i: int| 0 <= i < ids.len() ==> workspace_at(ws, (#[trigger] ids[i])@) is Some)
                && (forall|i: int, j: int|
                0 <= i < j < ids.len() ==> workspace_at(ws, (#[trigger] ids[i])@) != workspace_at(
                    ws,
                    (#[trigger] ids[j])@,
                )) {
                assert forall|i: int| 0 <= i < head.len() implies workspace_at(
                    ws,
                    (#[trigger] head[i])@,
                ) is Some by {
                    assert(head[i] == ids[i]);
                }
                assert forall|i: int, j: int| 0 <= i < j < head.len() implies workspace_at(
                    ws,
                    (#[trigger] head[i])@,
                ) != workspace_at(ws, (#[trigger] head[j])@) by {
                    assert(head[i] == ids[i] && head[j] == ids[j]);
                }
            }
        }
    }
}

/// A moved tab is told of as itself, with the place it was sent to; its session is to be saved, and
/// the tab bar follows where it is on screen.
pub proof fn law_moved_tabs_are_told_of(
    before: Session,
    after: Session,
    ws: int,
    tab: int,
    insert: int,
)
    requires
        tab_moved(before, after, ws, tab, insert),
    ensures
        after.events@.last() matches Event::TabMoved { tab_id, workspace_id, insert_index, tabs }
            && tab_id == before.workspaces@[ws].tabs@[tab].public_id && workspace_id
            == before.workspaces@[ws].id && insert_index == insert && tabs@.len()
            == after.workspaces@[ws].tabs@.len(),
        after.events@.drop_last() == before.events@,
        after.save_scheduled,
        before.active == Some(ws as usize) ==> after.tab_bar_stale && after.tab_scroll_follow_active,
        before.active != Some(ws as usize) ==> after.tab_bar_stale == before.tab_bar_stale
            && after.tab_scroll_follow_active == before.tab_scroll_follow_active,
        after.active == before.active,
        after.terminals == before.terminals,
{
    assert(after.events@.drop_last() =~= before.events@);
}

/// A renamed tab is told of under its new name, its session is to be saved, and the tab bar is
/// worked out again where it is on screen. Its panes, and every other tab, stay.
pub proof fn law_renamed_tabs_are_told_of(
    before: Session,
    after: Session,
    ws: int,
    tab: int,
    label: String,
    other: int,
)
    requires
        tab_renamed(before, after, ws, tab, label),
        0 <= ws < before.workspaces@.len(),
        0 <= tab < before.workspaces@[ws].tabs@.len(),
        0 <= other < before.workspaces@[ws].tabs@.len(),
    ensures
        after.events@ == before.events@.push(
            Event::TabRenamed {
                tab_id: before.workspaces@[ws].tabs@[tab].public_id,
                workspace_id: before.workspaces@[ws].id,
                label,
            },
        ),
        after.save_scheduled,
        before.active == Some(ws as usize) ==> after.tab_bar_stale,
        before.active != Some(ws as usize) ==> after.tab_bar_stale == before.tab_bar_stale,
        after.workspaces@[ws].tabs@[tab].custom_name == Some(label),
        after.workspaces@[ws].tabs@[tab].panes == before.workspaces@[ws].tabs@[tab].panes,
        other != tab ==> after.workspaces@[ws].tabs@[other] == before.workspaces@[ws].tabs@[other],
        after.workspaces@[ws].active_tab == before.workspaces@[ws].active_tab,
        after.active == before.active,
{
}

// ---------------------------------------------------------------------------------------------
// Adding
// ---------------------------------------------------------------------------------------------

/// A tab that is asked for without a workspace goes to the active one.
pub proof fn law_new_tabs_go_where_they_are_asked_for(
    session: Session,
    workspace_id: Option<Seq<char>>,
)
    ensures
        ({
            let to = target_workspace(session, workspace_id);
            &&& workspace_id matches Some(id) ==> (workspace_at(session.workspaces@, id) matches Some(
                ws,
            ) ==> to == Ok::<int, Refusal>(ws))
            &&& workspace_id matches Some(id) ==> (workspace_at(session.workspaces@, id) is None
                ==> (to matches Err(e) && e.code == "workspace_not_found"@ && e.message
                == "workspace "@ + id + " not found"@))
            &&& workspace_id is None ==> (session.active matches Some(a) ==> (a
                < session.workspaces@.len() ==> to == Ok::<int, Refusal>(a as int)))
            &&& workspace_id is None && session.active is None ==> (to matches Err(e) && e.code
                == "workspace_not_found"@ && e.message == "no active workspace"@)
        }),
{
}

/// A new tab is the last of its workspace, with one pane that shows the terminal that was started,
/// under the name that was asked for. It gets the focus exactly where that was asked for. No alias
/// is left that its pane's own id would hide, and every other alias, tab and terminal stays.
pub proof fn law_new_tabs_are_added_at_the_end(
    before: Session,
    after: Session,
    ws: int,
    pane: NewPane,
    label: Option<String>,
    focus: bool,
    alias: PaneAlias,
    i: int,
)
    requires
        tab_added(before, after, ws, pane, label, focus),
        0 <= ws < before.workspaces@.len() <= usize::MAX,
        before.workspaces@[ws].tabs@.len() <= usize::MAX,
        0 <= i < before.workspaces@[ws].tabs@.len(),
    ensures
        ({
            let w = after.workspaces@[ws];
            let tab = w.tabs@.last();
            &&& w.tabs@.len() == before.workspaces@[ws].tabs@.len() + 1
            &&& w.tabs@[i] == before.workspaces@[ws].tabs@[i]
            &&& tab.custom_name == label
            &&& tab.public_id == pane.public_tab_id
            &&& tab.panes@.len() == 1
            &&& tab.panes@[0].id == pane.pane
            &&& tab.panes@[0].public_id == pane.public_pane_id
            &&& tab.panes@[0].terminal_id == pane.terminal.id
            &&& tab.root_pane == pane.pane
            &&& tab.focused == pane.pane
            &&& focus ==> w.active_tab == w.tabs@.len() - 1 && (after.active matches Some(a) && a
                == ws) && after.selected == ws && after.mode == Mode::Terminal
            &&& !focus ==> w.active_tab == before.workspaces@[ws].active_tab && after.active
                == before.active && after.selected == before.selected && after.mode == before.mode
        }),
        after.terminals@ == before.terminals@.push(pane.terminal),
        after.save_scheduled,
        after.pane_aliases@.contains(alias) <==> before.pane_aliases@.contains(alias)
            && alias.alias@ != pane.public_pane_id@,
{
    lemma_filtered(
        before.pane_aliases@,
        |a: PaneAlias| a.alias@ != pane.public_pane_id@,
        alias,
    );
}

/// What a filter keeps is what it had and the condition holds of.
pub proof fn lemma_filtered<A>(s: Seq<A>, p: spec_fn(A) -> bool, x: A)
    ensures
        s.filter(p).contains(x) <==> s.contains(x) && p(x),
{
    let kept = s.filter(p);
    if kept.contains(x) {
        let k = choose|k: int| 0 <= k < kept.len() && kept[k] == x;
        s.lemma_filter_pred(p, k);
        s.lemma_filter_contains_rev(p, x);
    }
    if s.contains(x) && p(x) {
        let k = choose|k: int| 0 <= k < s.len() && s[k] == x;
        s.lemma_filter_contains(p, k);
    }
}

/// A new workspace is the last, with one tab and one pane that shows the terminal that was started.
/// It gets the focus where that was asked for, and where nothing else has it.
pub proof fn law_new_workspaces_are_added_at_the_end(
    before: Session,
    after: Session,
    made: NewWorkspace,
    label: Option<String>,
    tab_label: Option<String>,
    focus: bool,
    alias: PaneAlias,
    i: int,
)
    requires
        workspace_added(before, after, made, label, tab_label, focus),
        before.workspaces@.len() <= usize::MAX,
    ensures
        ({
            let w = after.workspaces@.last();
            let n = before.workspaces@.len();
            &&& after.workspaces@.len() == n + 1
            &&& 0 <= i < n ==> after.workspaces@[i] == before.workspaces@[i]
            &&& w.id == made.id
            &&& w.custom_name == label
            &&& w.auto_label == made.auto_label
            &&& w.identity_cwd == made.identity_cwd
            &&& w.tabs@.len() == 1 && w.active_tab == 0
            &&& w.tabs@[0].custom_name == tab_label
            &&& w.tabs@[0].panes@.len() == 1
            &&& w.tabs@[0].panes@[0].id == made.pane.pane
            &&& w.tabs@[0].panes@[0].public_id == made.pane.public_pane_id
            &&& w.tabs@[0].panes@[0].terminal_id == made.pane.terminal.id
            &&& w.tabs@[0].focused == made.pane.pane
            &&& w.worktree is None && w.tokens.tokens@.len() == 0
            &&& focus || before.active is None ==> (after.active matches Some(a) && a == n)
                && after.selected == n && after.mode == Mode::Terminal
            &&& !(focus || before.active is None) ==> after.active == before.active
                && after.selected == before.selected && after.mode == before.mode
        }),
        after.terminals@ == before.terminals@.push(made.pane.terminal),
        after.save_scheduled,
        after.pane_aliases@.contains(alias) <==> before.pane_aliases@.contains(alias)
            && alias.alias@ != made.pane.public_pane_id@,
{
    lemma_filtered(
        before.pane_aliases@,
        |a: PaneAlias| a.alias@ != made.pane.public_pane_id@,
        alias,
    );
}

// ---------------------------------------------------------------------------------------------
// Closing
// ---------------------------------------------------------------------------------------------

/// A tab is closed where it is there, unless its workspace would go with it and that has still to
/// be confirmed.
pub proof fn law_tabs_that_are_closed(session: Session, tab_id: Seq<char>, confirm: bool)
    ensures
        ({
            let refused = close_refusal(session, tab_id, confirm);
            &&& tab_in(session.workspaces@, tab_id) is None ==> (refused matches Some(e) && e.code
                == "tab_not_found"@ && e.message == "tab "@ + tab_id + " not found"@)
            &&& tab_in(session.workspaces@, tab_id) matches Some((ws, _)) ==> {
                let only = session.workspaces@[ws].tabs@.len() <= 1;
                &&& refused is Some <==> only && confirm
                &&& only && confirm ==> (refused matches Some(e) && e.code
                    == "confirmation_required"@ && e.message
                    == "closing this tab would close a worktree group"@)
            }
        }),
{
}

/// A closed tab is told of; the workspace that closed with it is told of next.
pub proof fn law_closed_tabs_are_told_of(tab_id: String, workspace_id: String)
    ensures
        close_events(tab_id, workspace_id, false) == seq![Event::TabClosed { tab_id, workspace_id }],
        close_events(tab_id, workspace_id, true) == seq![
            Event::TabClosed { tab_id, workspace_id },
            Event::WorkspaceClosed { workspace_id },
        ],
{
}

/// Closing a tab takes it, and it alone, from its workspace. Where it was the active one, the next
/// takes over, or the last where there is no next. Which workspace is active does not change.
pub proof fn law_closing_a_tab_takes_it_alone(
    before: Session,
    after: Session,
    ws: int,
    tab: int,
    i: int,
)
    requires
        tab_closed(before, after, ws, tab),
        0 <= ws < before.workspaces@.len(),
        0 <= tab < before.workspaces@[ws].tabs@.len(),
        before.workspaces@[ws].active_tab < before.workspaces@[ws].tabs@.len(),
        before.workspaces@[ws].tabs@.len() > 1,
        0 <= i < before.workspaces@[ws].tabs@.len(),
    ensures
        ({
            let old_tabs = before.workspaces@[ws].tabs@;
            let new_tabs = after.workspaces@[ws].tabs@;
            &&& new_tabs.len() == old_tabs.len() - 1
            &&& i < tab ==> new_tabs[i] == old_tabs[i]
            &&& i > tab ==> new_tabs[i - 1] == old_tabs[i]
            &&& before.workspaces@[ws].active_tab == tab && tab < new_tabs.len()
                ==> after.workspaces@[ws].active_tab == tab
            &&& before.workspaces@[ws].active_tab == tab && tab == new_tabs.len()
                ==> after.workspaces@[ws].active_tab == tab - 1
        }),
        after.active == before.active,
        after.selected == before.selected,
        after.events == before.events,
        after.pane_aliases == before.pane_aliases,
{
}

/// Closing a workspace takes it, and it alone. Where it was the active one, the next takes over, or
/// the last where there is no next, or none where none is left; the selection goes the same way.
/// The session is to be saved.
pub proof fn law_closing_a_workspace_takes_it_alone(
    before: Session,
    after: Session,
    ws: int,
    i: int,
)
    requires
        workspace_closed(before, after, ws),
        0 <= ws < before.workspaces@.len() <= usize::MAX,
        0 <= i < before.workspaces@.len(),
    ensures
        after.workspaces@.len() == before.workspaces@.len() - 1,
        i < ws ==> after.workspaces@[i] == before.workspaces@[i],
        i > ws ==> after.workspaces@[i - 1] == before.workspaces@[i],
        after.workspaces@.len() == 0 ==> after.active is None && after.selected == 0,
        after.workspaces@.len() > 0 && before.active == Some(ws as usize) ==> (
        after.active matches Some(a) && a == if ws < after.workspaces@.len() {
            ws
        } else {
            ws - 1
        }),
        after.workspaces@.len() > 0 ==> after.selected == if ws < after.workspaces@.len() {
            ws
        } else {
            ws - 1
        },
        before.active is None ==> after.active is None,
        after.save_scheduled,
        after.events == before.events,
{
}

/// A terminal goes, and is to be shut down, exactly when it was shown by what is closed and no pane
/// that is left shows it.
pub proof fn law_terminals_go_with_their_last_pane(
    terminals: Seq<Terminal>,
    ws: Seq<Workspace>,
    ids: Seq<String>,
    terminal: Terminal,
    id: String,
)
    ensures
        left_terminals(terminals, ws, ids).contains(terminal) <==> terminals.contains(terminal) && (
        shown(ws, terminal.id@) || forall|i: int|
            0 <= i < ids.len() ==> (#[trigger] ids[i])@ != terminal.id@),
        unshown(ws, ids).contains(id) <==> ids.contains(id) && !shown(ws, id@),
{
    lemma_filtered(terminals, |t: Terminal| shown(ws, t.id@) || !names(ids, t.id@), terminal);
    lemma_filtered(ids, |id: String| !shown(ws, id@), id);
}

/// A terminal is shown exactly when a pane of a tab of a workspace says so.
pub proof fn law_terminals_are_shown_by_panes(ws: Seq<Workspace>, id: Seq<char>)
    ensures
        shown(ws, id) <==> exists|w: int, t: int, i: int|
            0 <= w < ws.len() && 0 <= t < ws[w].tabs@.len() && 0 <= i < ws[w].tabs@[t].panes@.len()
                && (#[trigger] ws[w].tabs@[t].panes@[i]).terminal_id@ == id,
{
    if shown(ws, id) {
        let w = choose|w: int|
            0 <= w < ws.len() && crate::closing::tabs_show((#[trigger] ws[w]).tabs@, id);
        let t = choose|t: int|
            0 <= t < ws[w].tabs@.len() && crate::closing::panes_show(
                (#[trigger] ws[w].tabs@[t]).panes@,
                id,
            );
        let i = choose|i: int|
            0 <= i < ws[w].tabs@[t].panes@.len() && (
            #[trigger] ws[w].tabs@[t].panes@[i]).terminal_id@ == id;
        assert(ws[w].tabs@[t].panes@[i].terminal_id@ == id);
    }
    if exists|w: int, t: int, i: int|
        0 <= w < ws.len() && 0 <= t < ws[w].tabs@.len() && 0 <= i < ws[w].tabs@[t].panes@.len() && (
        #[trigger] ws[w].tabs@[t].panes@[i]).terminal_id@ == id {
        let (w, t, i) = choose|w: int, t: int, i: int|
            0 <= w < ws.len() && 0 <= t < ws[w].tabs@.len() && 0 <= i < ws[w].tabs@[t].panes@.len()
                && (#[trigger] ws[w].tabs@[t].panes@[i]).terminal_id@ == id;
        assert(crate::closing::panes_show(ws[w].tabs@[t].panes@, id));
        assert(crate::closing::tabs_show(ws[w].tabs@, id));
    }
}

/// Closing a tab lets go of the terminals of its panes and of no others, and copy mode ends where
/// its pane is among them.
pub proof fn law_closing_a_tab_lets_its_terminals_go(
    before: Session,
    after: Session,
    ws: int,
    tab: int,
    terminal: Terminal,
)
    requires
        tab_closed(before, after, ws, tab),
        0 <= ws < before.workspaces@.len(),
        0 <= tab < before.workspaces@[ws].tabs@.len(),
    ensures
        ({
            let gone = before.workspaces@[ws].tabs@[tab].panes@;
            let showed = exists|i: int|
                0 <= i < gone.len() && (#[trigger] gone[i]).terminal_id@ == terminal.id@;
            &&& after.terminals@.contains(terminal) <==> before.terminals@.contains(terminal) && (
            shown(after.workspaces@, terminal.id@) || !showed)
            &&& before.copy_mode_pane matches Some(pane) ==> (after.copy_mode_pane is None
                <==> exists|i: int| 0 <= i < gone.len() && (#[trigger] gone[i]).id == pane)
            &&& before.copy_mode_pane is None ==> after.copy_mode_pane is None
            &&& after.copy_mode_pane is Some ==> after.copy_mode_pane == before.copy_mode_pane
        }),
{
    broadcast use crate::search::lemma_first_where;

    let gone = before.workspaces@[ws].tabs@[tab].panes@;
    let ids = crate::closing::terminal_ids(gone);
    if ids.len() > 0 {
        law_terminals_go_with_their_last_pane(
            before.terminals@,
            after.workspaces@,
            ids,
            terminal,
            ids[0],
        );
    } else {
        law_terminals_go_with_their_last_pane(
            before.terminals@,
            after.workspaces@,
            ids,
            terminal,
            terminal.id,
        );
    }
    if exists|i: int| 0 <= i < gone.len() && (#[trigger] gone[i]).terminal_id@ == terminal.id@ {
        let i = choose|i: int|
            0 <= i < gone.len() && (#[trigger] gone[i]).terminal_id@ == terminal.id@;
        assert(ids[i]@ == terminal.id@);
    } else {
        assert forall|i: int| 0 <= i < ids.len() implies (#[trigger] ids[i])@ != terminal.id@ by {
            assert(ids[i] == gone[i].terminal_id);
        }
    }
}

// ---------------------------------------------------------------------------------------------
// Where terminals start
// ---------------------------------------------------------------------------------------------

/// A directory to follow, or home, or the server's own: the first that is there and absolute; the
/// root where none is. Home and the server's own directory are taken as they are where the policy
/// asks for them, and a path of its own is taken as it is.
pub proof fn law_terminals_start_where_the_policy_says(
    follow: Option<Candidate>,
    home: Option<Candidate>,
    current: Option<Candidate>,
    path: String,
)
    ensures
        start_of(CwdPolicy::Path(path), follow, home, current) == path@,
        current matches Some(c) ==> start_of(CwdPolicy::Current, follow, home, current) == c.path@,
        current is None ==> start_of(CwdPolicy::Current, follow, home, current) == "/"@,
        home matches Some(h) ==> start_of(CwdPolicy::Home, follow, home, current) == h.path@,
        home is None ==> (current matches Some(c) ==> start_of(
            CwdPolicy::Home,
            follow,
            home,
            current,
        ) == c.path@),
        home is None && current is None ==> start_of(CwdPolicy::Home, follow, home, current)
            == "/"@,
        follow matches Some(f) ==> (f.is_dir && f.path@.len() > 0 && f.path@[0] == '/' ==> start_of(
            CwdPolicy::Follow,
            follow,
            home,
            current,
        ) == f.path@),
        usable(follow) is None ==> (home matches Some(h) ==> (h.is_dir && h.path@.len() > 0
            && h.path@[0] == '/' ==> start_of(CwdPolicy::Follow, follow, home, current)
            == h.path@)),
        usable(follow) is None && usable(home) is None ==> (current matches Some(c) ==> (c.is_dir
            && c.path@.len() > 0 && c.path@[0] == '/' ==> start_of(
            CwdPolicy::Follow,
            follow,
            home,
            current,
        ) == c.path@)),
        usable(follow) is None && usable(home) is None && usable(current) is None ==> start_of(
            CwdPolicy::Follow,
            follow,
            home,
            current,
        ) == "/"@,
        usable(follow) is Some <==> (follow matches Some(f) && f.is_dir && f.path@.len() > 0
            && f.path@[0] == '/'),
{
}

/// A new workspace is made from the selected one while navigating, else from the active one, else
/// from the selected one.
pub proof fn law_new_workspaces_come_from_the_one_in_use(session: Session)
    ensures
        ({
            let source = session.spec_creation_source();
            let selectable = session.selected < session.workspaces@.len();
            &&& session.mode == Mode::Navigate && selectable ==> source == Some(session.selected)
            &&& !(session.mode == Mode::Navigate && selectable) && session.active is Some ==> source
                == session.active
            &&& session.active is None && selectable ==> source == Some(session.selected)
            &&& session.active is None && !selectable ==> source is None
        }),
{
}

/// What is followed is where the pane in focus is: the directory of the process in front there, else
/// of the terminal's own process, else the last that was known. A workspace whose focus says nothing
/// is followed to where it was started.
pub proof fn law_the_pane_in_focus_is_followed(session: Session, ws: int, t: Terminal)
    ensures
        t.runtime matches Some(r) ==> (r.foreground_cwd is Some ==> t.spec_follow_cwd()
            == r.foreground_cwd),
        t.runtime matches Some(r) ==> (r.foreground_cwd is None && r.cwd is Some
            ==> t.spec_follow_cwd() == r.cwd),
        t.runtime matches Some(r) ==> (r.foreground_cwd is None && r.cwd is None
            ==> t.spec_follow_cwd() == t.cwd),
        t.runtime is None ==> t.spec_follow_cwd() == t.cwd,
        0 <= ws < session.workspaces@.len() ==> (session.workspaces@[ws].spec_focused_pane() matches Some(
            pane,
        ) ==> (session.spec_terminal_of(ws, pane) matches Some(terminal) ==> focused_follow(
            session,
            ws,
        ) == terminal.spec_follow_cwd())),
        focused_follow(session, ws) is Some ==> session.spec_creation_cwd(ws) == focused_follow(
            session,
            ws,
        ),
        0 <= ws < session.workspaces@.len() && focused_follow(session, ws) is None
            ==> session.spec_creation_cwd(ws) == session.workspaces@[ws].identity_cwd,
{
}

// ---------------------------------------------------------------------------------------------
// What is told
// ---------------------------------------------------------------------------------------------

/// An agent that is idle is done until it is looked at; in any other state looking makes no
/// difference.
pub proof fn law_idle_agents_are_done_until_looked_at(state: AgentState, seen: bool)
    ensures
        status_of(state, seen) == AgentStatus::Done <==> state == AgentState::Idle && !seen,
        status_of(state, seen) == AgentStatus::Idle <==> state == AgentState::Idle && seen,
        status_of(state, seen) == AgentStatus::Working <==> state == AgentState::Working,
        status_of(state, seen) == AgentStatus::Blocked <==> state == AgentState::Blocked,
        status_of(state, seen) == AgentStatus::Unknown <==> state == AgentState::Unknown,
{
}

/// A blocked agent asks most to be looked at, then one that is done, then one that works, then one
/// that is idle; one of which nothing is known asks least.
pub proof fn law_blocked_agents_come_first(a: AgentStatus)
    ensures
        attention(a) <= attention(AgentStatus::Blocked),
        attention(AgentStatus::Blocked) > attention(AgentStatus::Done),
        attention(AgentStatus::Done) > attention(AgentStatus::Working),
        attention(AgentStatus::Working) > attention(AgentStatus::Idle),
        attention(AgentStatus::Idle) > attention(AgentStatus::Unknown),
{
}

/// A workspace is shown with the most urgent status of its tabs.
pub proof fn law_workspace_status_is_the_most_urgent(terminals: Seq<Terminal>, tabs: Seq<Tab>, i: int)
    requires
        0 <= i < tabs.len(),
    ensures
        attention(panes_status(terminals, tabs[i].panes@)) <= attention(tabs_status(terminals, tabs)),
        exists|k: int|
            0 <= k < tabs.len() && panes_status(terminals, (#[trigger] tabs[k]).panes@) == tabs_status(
                terminals,
                tabs,
            ),
    decreases tabs.len(),
{
    let head = tabs.drop_last();
    let n = tabs.len() - 1;
    assert(tabs[n] == tabs.last());
    if head.len() > 0 {
        let k = if i < n {
            i
        } else {
            0
        };
        law_workspace_status_is_the_most_urgent(terminals, head, k);
        assert(head[k] == tabs[k]);
        let m = choose|m: int|
            0 <= m < head.len() && panes_status(terminals, (#[trigger] head[m]).panes@)
                == tabs_status(terminals, head);
        assert(head[m] == tabs[m]);
    }
    if tabs_status(terminals, tabs) == panes_status(terminals, tabs.last().panes@) {
        assert(panes_status(terminals, tabs[n].panes@) == tabs_status(terminals, tabs));
    }
}

/// A tab is told of by its own ids, its place counted from one, its name or else that number,
/// whether it is the one on screen, and how many panes it has.
pub proof fn law_tabs_are_told_of(info: TabInfo, session: Session, ws: int, tab: int)
    requires
        is_tab_info(info, session, ws, tab),
    ensures
        info.tab_id == session.workspaces@[ws].tabs@[tab].public_id,
        info.workspace_id == session.workspaces@[ws].id,
        info.number == tab + 1,
        session.workspaces@[ws].tabs@[tab].custom_name matches Some(name) ==> info.label@ == name@,
        session.workspaces@[ws].tabs@[tab].custom_name is None ==> info.label@ == decimal(
            (tab + 1) as nat,
        ),
        info.focused <==> (session.active matches Some(a) && a == ws)
            && session.workspaces@[ws].active_tab == tab,
        info.pane_count == session.workspaces@[ws].tabs@[tab].panes@.len(),
        info.agent_status == panes_status(
            session.terminals@,
            session.workspaces@[ws].tabs@[tab].panes@,
        ),
{
}

/// A workspace is told of by its own id, its place counted from one, its name or else the label
/// made for it, whether it is the active one, its tabs and its tokens.
pub proof fn law_workspaces_are_told_of(info: WorkspaceInfo, session: Session, ws: int)
    requires
        is_workspace_info(info, session, ws),
    ensures
        info.workspace_id == session.workspaces@[ws].id,
        info.number == ws + 1,
        session.workspaces@[ws].custom_name matches Some(name) ==> info.label@ == name@,
        session.workspaces@[ws].custom_name is None ==> info.label@
            == session.workspaces@[ws].auto_label@,
        info.focused <==> (session.active matches Some(a) && a == ws),
        info.tab_count == session.workspaces@[ws].tabs@.len(),
        session.workspaces@[ws].active_tab < session.workspaces@[ws].tabs@.len()
            ==> info.active_tab_id@
            == session.workspaces@[ws].tabs@[session.workspaces@[ws].active_tab as int].public_id@,
        info.tokens@ == session.workspaces@[ws].tokens.tokens@,
        pane_total(session.workspaces@[ws].tabs@) <= usize::MAX ==> info.pane_count == pane_total(
            session.workspaces@[ws].tabs@,
        ),
        info.agent_status == tabs_status(session.terminals@, session.workspaces@[ws].tabs@),
        session.workspaces@[ws].worktree is None ==> info.worktree is None,
        session.workspaces@[ws].worktree matches Some(space) ==> (info.worktree matches Some(told)
            && told.repo_key == space.key && told.repo_name == space.label && told.repo_root
            == space.repo_root && told.checkout_path == space.checkout_path
            && told.is_linked_worktree == space.is_linked_worktree),
{
}

/// The panes of some tabs are counted tab by tab.
pub proof fn law_panes_are_counted(tabs: Seq<Tab>, tab: Tab)
    ensures
        pane_total(tabs.push(tab)) == pane_total(tabs) + tab.panes@.len(),
        pane_total(Seq::<Tab>::empty()) == 0,
{
    assert(tabs.push(tab).drop_last() =~= tabs);
}

/// A pane is told of by its own ids and those of its tab and workspace, and by what its terminal
/// knows; it has the focus when its tab is on screen and has the focus at it.
pub proof fn law_panes_are_told_of(info: PaneInfo, session: Session, ws: int, pane: u64, t: Terminal)
    requires
        is_pane_info(info, session, ws, pane),
        session.spec_terminal_of(ws, pane) == Some(t),
    ensures
        session.workspaces@[ws].spec_pane(pane) matches Some(p) ==> info.pane_id == p.public_id
            && info.agent_status == status_of(t.state, p.seen),
        info.terminal_id == t.id,
        info.workspace_id == session.workspaces@[ws].id,
        info.focused ==> (session.active matches Some(a) && a == ws)
            && session.workspaces@[ws].spec_focused_pane() == Some(pane),
        t.runtime matches Some(r) ==> (r.cwd is Some ==> info.cwd == r.cwd) && (r.cwd is None
            ==> info.cwd == t.cwd) && info.foreground_cwd == r.foreground_cwd && info.scroll
            == r.scroll,
        t.runtime is None ==> info.cwd == t.cwd && info.foreground_cwd is None && info.scroll is None,
        info.label == t.manual_label,
        info.agent == t.agent_label,
        info.title == t.presentation.title,
        info.display_agent == t.presentation.display_agent,
        info.state_labels@ == t.presentation.state_labels@,
        info.terminal_title == t.raw_title,
        info.terminal_title_stripped == t.stripped_title,
        info.tokens@ == t.tokens.tokens@,
        info.revision == t.revision,
        is_session_of(info.agent_session, t),
        tab_of_pane(session.workspaces@[ws].tabs@, pane) matches Some(tab) ==> {
            &&& info.tab_id == session.workspaces@[ws].tabs@[tab].public_id
            &&& info.focused <==> (session.active matches Some(a) && a == ws)
                && session.workspaces@[ws].active_tab == tab
                && session.workspaces@[ws].spec_focused_pane() == Some(pane)
        },
{
}

/// A pane that is told of as in focus is in the tab that is active.
pub proof fn law_the_pane_in_focus_is_told_of(info: PaneInfo, session: Session, ws: int, pane: u64)
    requires
        is_pane_info(info, session, ws, pane),
    ensures
        ({
            let w = session.workspaces@[ws];
            let tab = crate::session::tab_of_pane(w.tabs@, pane)->Some_0;
            &&& info.tab_id == w.tabs@[tab].public_id
            &&& info.focused <==> (session.active matches Some(a) && a == ws) && w.active_tab == tab
                && w.active_tab < w.tabs@.len() && w.tabs@[tab].focused == pane
        }),
{
}

/// An agent's session is what its hook reports now; where the hook reports none, what was kept of
/// an earlier report; where neither is there, none.
pub proof fn law_sessions_come_from_the_hook_first(info: Option<AgentSessionInfo>, t: Terminal)
    requires
        is_session_of(info, t),
    ensures
        t.hook_authority matches Some(h) ==> (h.session_ref matches Some(own) ==> (
        info matches Some(told) && told.source == h.source && told.agent == h.agent_label
            && told.kind == own.kind && told.value == own.value)),
        !(t.hook_authority matches Some(h) && h.session_ref is Some) ==> (
        t.persisted_session matches Some(kept) ==> (info matches Some(told) && told.source
            == kept.source && told.agent == kept.agent && told.kind == kept.session_ref.kind
            && told.value == kept.session_ref.value)),
        !(t.hook_authority matches Some(h) && h.session_ref is Some) && t.persisted_session is None
            ==> info is None,
{
}

/// A pane can give receipts exactly when its terminal's agent was confirmed by a hook and no exit
/// waits to be handled.
pub proof fn law_confirmed_agents_give_receipts(session: Session, pane_id: Seq<char>)
    ensures
        receiver_of(session, pane_id) is Some <==> (session.spec_parse_pane_id(pane_id) matches Some(
            (ws, pane),
        ) && session.spec_terminal_of(ws, pane) matches Some(t) && t.confirmed_hook_label is Some && !(
        t.runtime matches Some(r) && r.exit_pending)),
{
}

/// A receipt is from the pane and the terminal that were asked about, under the label that the hook
/// confirmed, with that agent's own session where it has one.
pub proof fn law_receipts_are_from_the_confirmed_agent(
    r: AuthoritativeReceiver,
    session: Session,
    pane_id: Seq<char>,
    ws: int,
    pane: u64,
    t: Terminal,
)
    requires
        is_receiver(r, session, pane_id),
        session.spec_parse_pane_id(pane_id) == Some((ws, pane)),
        session.spec_terminal_of(ws, pane) == Some(t),
    ensures
        r.terminal_id == t.id,
        Some(r.agent_label) == t.confirmed_hook_label,
        session.workspaces@[ws].spec_pane(pane) matches Some(p) && r.pane_id == p.public_id,
        t.hook_authority matches Some(h) ==> (h.session_ref matches Some(own) ==> (h.agent_label@
            == r.agent_label@ ==> (r.agent_session matches Some(told) && told.value == own.value
            && told.source == h.source)) && (h.agent_label@ != r.agent_label@
            ==> r.agent_session is None)),
        !(t.hook_authority matches Some(h) && h.session_ref is Some) ==> (
        t.persisted_session matches Some(kept) ==> (kept.agent@ == r.agent_label@ ==> (
        r.agent_session matches Some(told) && told.value == kept.session_ref.value)) && (kept.agent@
            != r.agent_label@ ==> r.agent_session is None)),
{
    let info = choose|info: Option<AgentSessionInfo>| #[trigger]
        is_session_of(info, t) && r.agent_session == match info {
            Some(told) => if told.agent@ == r.agent_label@ {
                Some(told)
            } else {
                None
            },
            None => None,
        };
    law_sessions_come_from_the_hook_first(info, t);
}

proof fn lemma_told_panes(session: Session, ws: int, panes: Seq<Pane>, pane: u64)
    ensures
        told_panes(session, ws, panes).contains((ws, pane)) <==> has_info(session, ws, pane)
            && exists|i: int| 0 <= i < panes.len() && (#[trigger] panes[i]).id == pane,
        forall|k: int|
            0 <= k < told_panes(session, ws, panes).len() ==> (#[trigger] told_panes(
                session,
                ws,
                panes,
            )[k]).0 == ws,
    decreases panes.len(),
{
    if panes.len() > 0 {
        let head = panes.drop_last();
        lemma_told_panes(session, ws, head, pane);
        let before = told_panes(session, ws, head);
        let all = told_panes(session, ws, panes);
        assert(forall|i: int| 0 <= i < head.len() ==> head[i] == #[trigger] panes[i]);
        assert(panes[panes.len() - 1] == panes.last());
        if before.contains((ws, pane)) {
            let k = choose|k: int| 0 <= k < before.len() && before[k] == (ws, pane);
            assert(all[k] == (ws, pane));
            let i = choose|i: int| 0 <= i < head.len() && (#[trigger] head[i]).id == pane;
            assert(panes[i].id == pane);
        }
        if has_info(session, ws, pane) && panes.last().id == pane {
            assert(all[all.len() - 1] == (ws, pane));
        }
        if all.contains((ws, pane)) {
            let k = choose|k: int| 0 <= k < all.len() && all[k] == (ws, pane);
            if k < before.len() {
                assert(before[k] == (ws, pane));
            } else {
                assert(panes.last().id == pane);
            }
        }
        if exists|i: int| 0 <= i < panes.len() && (#[trigger] panes[i]).id == pane {
            let i = choose|i: int| 0 <= i < panes.len() && (#[trigger] panes[i]).id == pane;
            if i < head.len() {
                assert(head[i].id == pane);
            }
        }
    }
}

proof fn lemma_told_tabs(session: Session, ws: int, tabs: Seq<Tab>, pane: u64)
    ensures
        told_tabs(session, ws, tabs).contains((ws, pane)) <==> has_info(session, ws, pane)
            && crate::laws::lookup::tabs_have(tabs, pane),
        forall|k: int|
            0 <= k < told_tabs(session, ws, tabs).len() ==> (#[trigger] told_tabs(
                session,
                ws,
                tabs,
            )[k]).0 == ws,
    decreases tabs.len(),
{
    if tabs.len() > 0 {
        let head = tabs.drop_last();
        let n = tabs.len() - 1;
        lemma_told_tabs(session, ws, head, pane);
        lemma_told_panes(session, ws, tabs.last().panes@, pane);
        let before = told_tabs(session, ws, head);
        let own = told_panes(session, ws, tabs.last().panes@);
        let all = before + own;
        assert(tabs[n] == tabs.last());
        if before.contains((ws, pane)) {
            let k = choose|k: int| 0 <= k < before.len() && before[k] == (ws, pane);
            assert(all[k] == (ws, pane));
            let (t, i) = choose|t: int, i: int|
                0 <= t < head.len() && 0 <= i < head[t].panes@.len() && (
                #[trigger] head[t].panes@[i]).id == pane;
            assert(tabs[t] == head[t]);
            assert(tabs[t].panes@[i].id == pane);
        }
        if own.contains((ws, pane)) {
            let k = choose|k: int| 0 <= k < own.len() && own[k] == (ws, pane);
            assert(all[before.len() + k] == (ws, pane));
            let i = choose|i: int|
                0 <= i < tabs.last().panes@.len() && (#[trigger] tabs.last().panes@[i]).id == pane;
            assert(tabs[n].panes@[i].id == pane);
        }
        if all.contains((ws, pane)) {
            let k = choose|k: int| 0 <= k < all.len() && all[k] == (ws, pane);
            if k < before.len() {
                assert(before[k] == (ws, pane));
            } else {
                assert(own[k - before.len()] == (ws, pane));
            }
        }
        if crate::laws::lookup::tabs_have(tabs, pane) {
            let (t, i) = choose|t: int, i: int|
                0 <= t < tabs.len() && 0 <= i < tabs[t].panes@.len() && (
                #[trigger] tabs[t].panes@[i]).id == pane;
            if t < n {
                assert(head[t] == tabs[t]);
                assert(head[t].panes@[i].id == pane);
            } else {
                assert(tabs.last().panes@[i].id == pane);
            }
        }
    }
}

/// Every pane of every workspace whose terminal is there is told of, and no other; workspace by
/// workspace.
pub proof fn law_every_pane_is_told_of(session: Session, n: int, ws: int, pane: u64, i: int, j: int)
    requires
        0 <= n <= session.workspaces@.len(),
        0 <= ws < n,
    ensures
        told_workspaces(session, n).contains((ws, pane)) <==> has_info(session, ws, pane)
            && crate::laws::lookup::tabs_have(session.workspaces@[ws].tabs@, pane),
        0 <= i < j < told_workspaces(session, n).len() ==> told_workspaces(session, n)[i].0
            <= told_workspaces(session, n)[j].0,
        0 <= i < told_workspaces(session, n).len() ==> 0 <= told_workspaces(session, n)[i].0 < n,
    decreases n,
{
    let before = told_workspaces(session, n - 1);
    let own = told_tabs(session, n - 1, session.workspaces@[n - 1].tabs@);
    let all = told_workspaces(session, n);
    assert(all == before + own);
    lemma_told_tabs(session, n - 1, session.workspaces@[n - 1].tabs@, pane);
    lemma_told_sorted(session, n - 1);
    if ws < n - 1 {
        law_every_pane_is_told_of(session, n - 1, ws, pane, i, j);
        if before.contains((ws, pane)) {
            let k = choose|k: int| 0 <= k < before.len() && before[k] == (ws, pane);
            assert(all[k] == (ws, pane));
        }
        if all.contains((ws, pane)) {
            let k = choose|k: int| 0 <= k < all.len() && all[k] == (ws, pane);
            if k < before.len() {
                assert(before[k] == (ws, pane));
            } else {
                assert(own[k - before.len()].0 == n - 1);
            }
        }
    } else {
        if own.contains((ws, pane)) {
            let k = choose|k: int| 0 <= k < own.len() && own[k] == (ws, pane);
            assert(all[before.len() + k] == (ws, pane));
        }
        if all.contains((ws, pane)) {
            let k = choose|k: int| 0 <= k < all.len() && all[k] == (ws, pane);
            if k < before.len() {
                assert(before[k].0 < n - 1);
            } else {
                assert(own[k - before.len()] == (ws, pane));
            }
        }
    }
    lemma_told_sorted(session, n);
}

proof fn lemma_told_sorted(session: Session, n: int)
    requires
        0 <= n <= session.workspaces@.len(),
    ensures
        forall|k: int|
            0 <= k < told_workspaces(session, n).len() ==> 0 <= (#[trigger] told_workspaces(
                session,
                n,
            )[k]).0 < n,
        forall|i: int, j: int|
            0 <= i < j < told_workspaces(session, n).len() ==> (#[trigger] told_workspaces(
                session,
                n,
            )[i]).0 <= (#[trigger] told_workspaces(session, n)[j]).0,
    decreases n,
{
    if n > 0 {
        lemma_told_sorted(session, n - 1);
        lemma_told_tabs(session, n - 1, session.workspaces@[n - 1].tabs@, 0);
        let before = told_workspaces(session, n - 1);
        let own = told_tabs(session, n - 1, session.workspaces@[n - 1].tabs@);
        let all = told_workspaces(session, n);
        assert(all == before + own);
        assert forall|k: int| 0 <= k < all.len() implies 0 <= (#[trigger] all[k]).0 < n && (k
            < before.len() ==> all[k].0 < n - 1) && (k >= before.len() ==> all[k].0 == n - 1) by {
            if k < before.len() {
                assert(all[k] == before[k]);
            } else {
                assert(all[k] == own[k - before.len()]);
            }
        }
        assert forall|i: int, j: int| 0 <= i < j < all.len() implies (#[trigger] all[i]).0 <= (
        #[trigger] all[j]).0 by {
            if j < before.len() {
                assert(all[i] == before[i] && all[j] == before[j]);
            }
        }
    }
}

} // verus!
