//! What holds of a session whatever is asked of it.
//!
//! A session in good standing has something in every workspace, and what its positions point at is
//! there. Every request that changes the list of workspaces or of tabs keeps that.

use vstd::prelude::*;
use crate::closing::{tab_closed, workspace_closed};
use crate::focus::focus_moved;
use crate::info::{is_tab_info, is_workspace_info, TabInfo, WorkspaceInfo};
use crate::moves::{
    block_order, is_block, landing, law_block_moves_keep_every_element,
    law_moves_keep_every_element, reordered,
};
use crate::session::{Session, Workspace};
use crate::tabs::{tab_added, tab_moved, tab_renamed, NewPane};
use crate::workspaces::{
    block_moved, law_a_block_move_keeps_track_of_workspaces, workspace_added,
    workspace_moved, NewWorkspace,
};

verus! {

/// A workspace has tabs, and one of them is active.
pub open spec fn has_active_tab(w: Workspace) -> bool {
    w.active_tab < w.tabs@.len()
}

/// Every workspace has an active tab, and an active workspace is one of the list.
pub open spec fn in_good_standing(s: Session) -> bool {
    &&& s.active matches Some(a) ==> a < s.workspaces@.len()
    &&& forall|w: int| 0 <= w < s.workspaces@.len() ==> has_active_tab(#[trigger] s.workspaces@[w])
}

/// Focusing a pane keeps a session in good standing.
pub proof fn law_focusing_keeps_good_standing(
    before: Session,
    after: Session,
    ws: int,
    tab: int,
    pane: u64,
)
    requires
        in_good_standing(before),
        0 <= ws < before.workspaces@.len(),
        0 <= tab < before.workspaces@[ws].tabs@.len(),
        focus_moved(before, after, ws, tab, pane),
    ensures
        in_good_standing(after),
        after.active == Some(ws as usize),
{
    lemma_one_workspace_changed(before, after, ws);
}

proof fn lemma_one_workspace_changed(before: Session, after: Session, ws: int)
    requires
        in_good_standing(before),
        0 <= ws < before.workspaces@.len(),
        after.workspaces@ == before.workspaces@.update(ws, after.workspaces@[ws]),
        has_active_tab(after.workspaces@[ws]),
    ensures
        forall|w: int|
            0 <= w < after.workspaces@.len() ==> has_active_tab(#[trigger] after.workspaces@[w]),
{
    assert forall|w: int| 0 <= w < after.workspaces@.len() implies has_active_tab(
        #[trigger] after.workspaces@[w],
    ) by {
        if w != ws {
            assert(has_active_tab(before.workspaces@[w]));
        }
    }
}

/// Adding a tab keeps a session in good standing.
pub proof fn law_adding_a_tab_keeps_good_standing(
    before: Session,
    after: Session,
    ws: int,
    pane: NewPane,
    label: Option<String>,
    focus: bool,
)
    requires
        in_good_standing(before),
        0 <= ws < before.workspaces@.len(),
        tab_added(before, after, ws, pane, label, focus),
    ensures
        in_good_standing(after),
{
    assert(has_active_tab(before.workspaces@[ws]));
    lemma_one_workspace_changed(before, after, ws);
}

/// Adding a workspace keeps a session in good standing, and leaves a workspace active.
pub proof fn law_adding_a_workspace_keeps_good_standing(
    before: Session,
    after: Session,
    made: NewWorkspace,
    label: Option<String>,
    tab_label: Option<String>,
    focus: bool,
)
    requires
        in_good_standing(before),
        workspace_added(before, after, made, label, tab_label, focus),
    ensures
        in_good_standing(after),
        after.active is Some,
{
    assert forall|w: int| 0 <= w < after.workspaces@.len() implies has_active_tab(
        #[trigger] after.workspaces@[w],
    ) by {
        if w < before.workspaces@.len() {
            assert(has_active_tab(before.workspaces@[w]));
        }
    }
}

/// Renaming a tab keeps a session in good standing; the tab goes by its new name.
pub proof fn law_a_renamed_tab_goes_by_its_name(
    before: Session,
    after: Session,
    ws: int,
    tab: int,
    label: String,
    info: TabInfo,
)
    requires
        in_good_standing(before),
        0 <= ws < before.workspaces@.len(),
        0 <= tab < before.workspaces@[ws].tabs@.len(),
        tab_renamed(before, after, ws, tab, label),
        is_tab_info(info, after, ws, tab),
    ensures
        in_good_standing(after),
        info.label@ == label@,
{
    assert(has_active_tab(before.workspaces@[ws]));
    lemma_one_workspace_changed(before, after, ws);
}

/// A workspace with a name of its own goes by it.
pub proof fn law_a_named_workspace_goes_by_its_name(
    session: Session,
    ws: int,
    label: String,
    info: WorkspaceInfo,
)
    requires
        session.workspaces@[ws].custom_name == Some(label),
        is_workspace_info(info, session, ws),
    ensures
        info.label@ == label@,
{
}

/// Moving a tab keeps a session in good standing, and the same tab active.
pub proof fn law_moving_a_tab_keeps_the_active_one(
    before: Session,
    after: Session,
    ws: int,
    tab: int,
    insert: int,
)
    requires
        in_good_standing(before),
        0 <= ws < before.workspaces@.len(),
        0 <= tab < before.workspaces@[ws].tabs@.len(),
        0 <= insert <= before.workspaces@[ws].tabs@.len(),
        tab_moved(before, after, ws, tab, insert),
    ensures
        in_good_standing(after),
        ({
            let w = before.workspaces@[ws];
            let v = after.workspaces@[ws];
            v.tabs@[v.active_tab as int] == w.tabs@[w.active_tab as int]
        }),
{
    let w = before.workspaces@[ws];
    assert(has_active_tab(w));
    law_moves_keep_every_element(w.tabs@, tab, insert, w.active_tab as int);
    lemma_one_workspace_changed(before, after, ws);
}

/// Moving a workspace keeps a session in good standing, and the same workspace active.
pub proof fn law_moving_a_workspace_keeps_the_active_one(
    before: Session,
    after: Session,
    from: int,
    insert: int,
)
    requires
        in_good_standing(before),
        0 <= from < before.workspaces@.len(),
        0 <= insert <= before.workspaces@.len(),
        workspace_moved(before, after, from, insert),
    ensures
        in_good_standing(after),
        before.active matches Some(a) ==> after.active matches Some(b)
            && after.workspaces@[b as int] == before.workspaces@[a as int],
{
    let ws = before.workspaces@;
    let to = landing(from, insert);
    assert forall|w: int| 0 <= w < after.workspaces@.len() implies has_active_tab(
        #[trigger] after.workspaces@[w],
    ) by {
        let i = if w == to {
            from
        } else {
            let rest = if w < to {
                w
            } else {
                w - 1
            };
            if rest < from {
                rest
            } else {
                rest + 1
            }
        };
        assert(after.workspaces@[w] == ws[i]);
        assert(has_active_tab(ws[i]));
    }
    if before.active is Some {
        law_moves_keep_every_element(ws, from, insert, before.active->Some_0 as int);
        assert(before.workspaces.len() == ws.len());
    }
}

/// Moving a block of workspaces keeps a session in good standing, and the same workspace active.
pub proof fn law_moving_a_block_keeps_the_active_workspace(
    before: Session,
    after: Session,
    block: Seq<int>,
    at: int,
    anchor: Option<String>,
)
    requires
        in_good_standing(before),
        is_block(block, before.workspaces@.len() as int),
        0 <= at <= before.workspaces@.len(),
        block_moved(before, after, block, at, anchor),
    ensures
        in_good_standing(after),
        before.active matches Some(a) ==> after.active matches Some(b)
            && after.workspaces@[b as int] == before.workspaces@[a as int],
{
    let ws = before.workspaces@;
    let order = block_order(ws.len() as int, block, at);
    law_block_moves_keep_every_element(ws.len() as int, block, at);
    assert forall|w: int| 0 <= w < after.workspaces@.len() implies has_active_tab(
        #[trigger] after.workspaces@[w],
    ) by {
        assert(reordered(ws, order)[w] == ws[order[w]]);
        assert(has_active_tab(ws[order[w]]));
    }
    if before.active is Some {
        let a = before.active->Some_0 as int;
        law_a_block_move_keeps_track_of_workspaces(ws, block, at, a);
        assert(after.workspaces.len() == reordered(ws, order).len());
    }
}

/// Closing one of several tabs keeps a session in good standing; where another tab is active, it
/// stays so.
pub proof fn law_closing_a_tab_keeps_good_standing(
    before: Session,
    after: Session,
    ws: int,
    tab: int,
)
    requires
        in_good_standing(before),
        0 <= ws < before.workspaces@.len(),
        0 <= tab < before.workspaces@[ws].tabs@.len(),
        before.workspaces@[ws].tabs@.len() > 1,
        tab_closed(before, after, ws, tab),
    ensures
        in_good_standing(after),
        ({
            let w = before.workspaces@[ws];
            let v = after.workspaces@[ws];
            w.active_tab != tab ==> v.tabs@[v.active_tab as int] == w.tabs@[w.active_tab as int]
        }),
{
    assert(has_active_tab(before.workspaces@[ws]));
    lemma_one_workspace_changed(before, after, ws);
}

/// Closing a workspace keeps a session in good standing: while workspaces are left, one of them is
/// active where one was before.
pub proof fn law_closing_a_workspace_keeps_good_standing(before: Session, after: Session, ws: int)
    requires
        in_good_standing(before),
        0 <= ws < before.workspaces@.len(),
        workspace_closed(before, after, ws),
    ensures
        in_good_standing(after),
        before.active is Some && after.workspaces@.len() > 0 ==> after.active is Some,
        after.workspaces@.len() > 0 ==> after.selected < after.workspaces@.len(),
{
    assert forall|w: int| 0 <= w < after.workspaces@.len() implies has_active_tab(
        #[trigger] after.workspaces@[w],
    ) by {
        let i = if w < ws {
            w
        } else {
            w + 1
        };
        assert(after.workspaces@[w] == before.workspaces@[i]);
        assert(has_active_tab(before.workspaces@[i]));
    }
}

} // verus!
