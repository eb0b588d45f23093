//! Requests about workspaces.

use vstd::prelude::*;
use vstd::string::*;
use crate::closing::workspace_closed;
use crate::info::{
    are_workspace_infos, has_info, is_pane_info, is_tab_info, is_workspace_info, lemma_tells_alike,
    CreatedWorkspace, WorkspaceInfo,
};
use crate::metadata::{
    expiry, is_fresh, report_outcome, report_problem, unexpired, MetadataReport, TokenStore,
};
use crate::moves::{
    block_order, follow, followed, ints, is_block, landing, law_block_moves_keep_every_element,
    move_item, moved, order_after_block_move, reorder, reordered,
};
use crate::response::{
    error, insert_index_error, insert_out_of_bounds, refusal, workspace_missing,
    workspace_not_found, ApiError, Refusal, Response,
};
use crate::runtime::earlier;
use crate::search::{first_where, lemma_first_where};
use crate::session::{
    next_revision, pane_at, revision_after, tab_of_pane, terminal_at, workspace_at, Event, Mode, Pane,
    PaneAlias, Session, Tab, Terminal, Workspace,
};
use crate::tabs::{is_new_tab, tab_added, tells_new_tab, NewPane};
use crate::text::{join3, opt_view, trimmed};

verus! {

pub struct WorkspaceMoveBlockParams {
    pub workspace_ids: Vec<String>,
    pub before_workspace_id: Option<String>,
}

/// What starting the first terminal of a new workspace gave.
pub struct NewWorkspace {
    pub id: String,
    pub auto_label: String,
    pub identity_cwd: Option<String>,
    pub pane: NewPane,
}

/// The terminal of a tab that was asked for from the interface: in the active workspace, or in a
/// workspace made for it where none is active.
pub enum StartedTab {
    InActive(NewPane),
    InNewWorkspace(NewWorkspace),
}

// ---------------------------------------------------------------------------------------------
// Moving
// ---------------------------------------------------------------------------------------------

/// `new` is `old` with a workspace moved, to another place. The active and the selected workspace
/// stay the same.
pub open spec fn workspace_moved(old: Session, new: Session, from: int, insert: int) -> bool {
    let to = landing(from, insert);
    &&& new == (Session {
        workspaces: new.workspaces,
        events: new.events,
        active: match old.active {
            Some(a) => Some(followed(a as int, from, to) as usize),
            None => None,
        },
        selected: followed(old.selected as int, from, to) as usize,
        save_scheduled: true,
        ..old
    })
    &&& new.workspaces@ == moved(old.workspaces@, from, insert)
    &&& new.events@.len() == old.events@.len() + 1
    &&& new.events@ == old.events@.push(new.events@.last())
    &&& new.events@.last() matches Event::WorkspaceMoved {
        workspace_id,
        insert_index,
        workspaces,
    } && workspace_id == old.workspaces@[from].id && insert_index == insert && are_workspace_infos(
        workspaces@,
        new,
    )
}

/// The workspaces a block names, in its order; or why it cannot be one: the first of its ids that
/// leads nowhere, or leads where an earlier one did.
pub open spec fn block_of(ws: Seq<Workspace>, ids: Seq<String>) -> Result<Seq<int>, Refusal>
    decreases ids.len(),
{
    if ids.len() == 0 {
        Ok(Seq::empty())
    } else {
        match block_of(ws, ids.drop_last()) {
            Err(refused) => Err(refused),
            Ok(block) => match workspace_at(ws, ids.last()@) {
                None => Err(workspace_missing(ids.last()@)),
                Some(i) => if block.contains(i) {
                    Err(
                        refusal(
                            "workspace_move_block_failed"@,
                            "workspace "@ + ids.last()@ + " appears more than once"@,
                        ),
                    )
                } else {
                    Ok(block.push(i))
                },
            },
        }
    }
}

/// Where a block goes: before the workspace named, or to the end.
pub open spec fn block_anchor(
    ws: Seq<Workspace>,
    block: Seq<int>,
    before: Option<Seq<char>>,
) -> Result<int, Refusal> {
    match before {
        None => Ok(ws.len() as int),
        Some(id) => match workspace_at(ws, id) {
            None => Err(workspace_missing(id)),
            Some(i) => if block.contains(i) {
                Err(
                    refusal(
                        "workspace_move_block_failed"@,
                        "before_workspace_id must not be part of workspace_ids"@,
                    ),
                )
            } else {
                Ok(i)
            },
        },
    }
}

/// What a request to move a block asks for: the block and where it goes.
pub open spec fn block_move(ws: Seq<Workspace>, params: WorkspaceMoveBlockParams) -> Result<
    (Seq<int>, int),
    Refusal,
> {
    if params.workspace_ids@.len() == 0 {
        Err(refusal("workspace_move_block_failed"@, "workspace_ids must not be empty"@))
    } else {
        match block_of(ws, params.workspace_ids@) {
            Err(refused) => Err(refused),
            Ok(block) => match block_anchor(ws, block, opt_view(params.before_workspace_id)) {
                Err(refused) => Err(refused),
                Ok(at) => Ok((block, at)),
            },
        }
    }
}

/// Where the workspace that was at `i` is in the new order.
pub open spec fn place_in(order: Seq<int>, i: int) -> int {
    match first_where(order, |x: int| x == i) {
        Some(at) => at,
        None => i,
    }
}

/// The order puts every workspace where it was.
pub open spec fn in_place(order: Seq<int>) -> bool {
    forall|i: int| 0 <= i < order.len() ==> #[trigger] order[i] == i
}

/// `new` is `old` with a block of workspaces moved. The active and the selected workspace stay the
/// same.
pub open spec fn block_moved(
    old: Session,
    new: Session,
    block: Seq<int>,
    at: int,
    before: Option<String>,
) -> bool {
    let order = block_order(old.workspaces@.len() as int, block, at);
    &&& new == (Session {
        workspaces: new.workspaces,
        events: new.events,
        active: match old.active {
            Some(a) => Some(place_in(order, a as int) as usize),
            None => None,
        },
        selected: place_in(order, old.selected as int) as usize,
        save_scheduled: true,
        ..old
    })
    &&& new.workspaces@ == reordered(old.workspaces@, order)
    &&& new.events@.len() == old.events@.len() + 1
    &&& new.events@ == old.events@.push(new.events@.last())
    &&& new.events@.last() matches Event::WorkspaceReordered {
        workspace_ids,
        before_workspace_id,
        workspaces,
    } && {
        &&& workspace_ids@ == block.map_values(|i: int| old.workspaces@[i].id)
        &&& before_workspace_id == match before {
            Some(_) => Some(old.workspaces@[at].id),
            None => None,
        }
        &&& are_workspace_infos(workspaces@, new)
    }
}

/// A workspace is found where its id first stands.
pub proof fn lemma_workspace_at(ws: Seq<Workspace>, id: Seq<char>)
    ensures
        match workspace_at(ws, id) {
            Some(i) => 0 <= i < ws.len() && ws[i].id@ == id && forall|j: int|
                0 <= j < i ==> (#[trigger] ws[j]).id@ != id,
            None => forall|j: int| 0 <= j < ws.len() ==> (#[trigger] ws[j]).id@ != id,
        },
{
    broadcast use lemma_first_where;

}

/// A block names positions of the list, each once.
pub proof fn lemma_block_of(ws: Seq<Workspace>, ids: Seq<String>)
    ensures
        block_of(ws, ids) matches Ok(block) ==> is_block(block, ws.len() as int) && block.len()
            == ids.len(),
    decreases ids.len(),
{
    if ids.len() > 0 {
        lemma_block_of(ws, ids.drop_last());
        lemma_workspace_at(ws, ids.last()@);
        match block_of(ws, ids.drop_last()) {
            Ok(block) => match workspace_at(ws, ids.last()@) {
                Some(i) => {
                    if !block.contains(i) {
                        let longer = block.push(i);
                        assert forall|x: int, y: int|
                            0 <= x < y < longer.len() implies longer[x] != longer[y] by {
                            if y == block.len() {
                                assert(block.contains(block[x]));
                            }
                        }
                    }
                },
                None => {},
            },
            Err(_) => {},
        }
    }
}

/// A workspace is found again, as the same, where the new order puts it.
pub proof fn law_a_block_move_keeps_track_of_workspaces(
    ws: Seq<Workspace>,
    block: Seq<int>,
    at: int,
    i: int,
)
    requires
        is_block(block, ws.len() as int),
        0 <= at <= ws.len(),
        0 <= i < ws.len(),
    ensures
        ({
            let order = block_order(ws.len() as int, block, at);
            let place = place_in(order, i);
            0 <= place < reordered(ws, order).len() && reordered(ws, order)[place] == ws[i]
        }),
{
    broadcast use lemma_first_where;

    let order = block_order(ws.len() as int, block, at);
    law_block_moves_keep_every_element(ws.len() as int, block, at);
    assert(order.contains(i));
    let k = choose|k: int| 0 <= k < order.len() && order[k] == i;
    let place = place_in(order, i);
    assert(order[place] == i);
}

/// What a request for a workspace is answered.
pub open spec fn workspace_get_outcome(
    session: Session,
    workspace_id: Seq<char>,
    body: Result<WorkspaceInfo, ApiError>,
) -> bool {
    match (workspace_at(session.workspaces@, workspace_id), body) {
        (Some(ws), Ok(info)) => is_workspace_info(info, session, ws),
        (None, Err(e)) => e@ == workspace_missing(workspace_id),
        _ => false,
    }
}

/// What a request to focus a workspace does.
pub open spec fn workspace_focus_outcome(
    old: Session,
    new: Session,
    workspace_id: Seq<char>,
    body: Result<WorkspaceInfo, ApiError>,
) -> bool {
    match (workspace_at(old.workspaces@, workspace_id), body) {
        (Some(ws), Ok(info)) => old.workspace_focused(new, ws)
            && is_workspace_info(info, new, ws),
        (None, Err(e)) => e@ == workspace_missing(workspace_id) && new == old,
        _ => false,
    }
}

/// What a request to rename a workspace does.
pub open spec fn workspace_rename_outcome(
    old: Session,
    new: Session,
    workspace_id: Seq<char>,
    label: String,
    body: Result<WorkspaceInfo, ApiError>,
) -> bool {
    match (workspace_at(old.workspaces@, workspace_id), body) {
        (Some(ws), Ok(info)) => {
            let before = old.workspaces@[ws];
            &&& new == (Session {
                workspaces: new.workspaces,
                events: new.events,
                save_scheduled: true,
                ..old
            })
            &&& new.workspaces@ == old.workspaces@.update(
                ws,
                (Workspace { custom_name: Some(label), ..before }),
            )
            &&& new.events@ == old.events@.push(
                (Event::WorkspaceRenamed { workspace_id: before.id, label }),
            )
            &&& is_workspace_info(info, new, ws)
        },
        (None, Err(e)) => e@ == workspace_missing(workspace_id) && new == old,
        _ => false,
    }
}

/// What a request to move a workspace does.
pub open spec fn workspace_move_outcome(
    old: Session,
    new: Session,
    workspace_id: Seq<char>,
    insert_index: usize,
    body: Result<Vec<WorkspaceInfo>, ApiError>,
) -> bool {
    match (workspace_at(old.workspaces@, workspace_id), body) {
        (None, Err(e)) => e@ == workspace_missing(workspace_id) && new == old,
        (Some(_), Err(e)) => {
            &&& insert_index > old.workspaces@.len()
            &&& e@ == insert_out_of_bounds("workspace_move_failed"@, insert_index as nat)
            &&& new == old
        },
        (Some(from), Ok(infos)) => {
            &&& insert_index <= old.workspaces@.len()
            &&& are_workspace_infos(infos@, new)
            &&& if landing(from, insert_index as int) != from {
                workspace_moved(old, new, from, insert_index as int)
            } else {
                new == old
            }
        },
        (None, Ok(_)) => false,
    }
}

/// What a request to move a block of workspaces does.
pub open spec fn block_move_outcome(
    old: Session,
    new: Session,
    params: WorkspaceMoveBlockParams,
    body: Result<Vec<WorkspaceInfo>, ApiError>,
) -> bool {
    match (block_move(old.workspaces@, params), body) {
        (Err(refused), Err(e)) => e@ == refused && new == old,
        (Ok((block, at)), Ok(infos)) => {
            &&& are_workspace_infos(infos@, new)
            &&& if in_place(block_order(old.workspaces@.len() as int, block, at)) {
                new == old
            } else {
                block_moved(
                    old,
                    new,
                    block,
                    at,
                    params.before_workspace_id,
                )
            }
        },
        _ => false,
    }
}

/// What a request to close a workspace does.
pub open spec fn workspace_close_outcome(
    old: Session,
    new: Session,
    workspace_id: Seq<char>,
    body: Result<(), ApiError>,
) -> bool {
    match (workspace_at(old.workspaces@, workspace_id), body) {
        (Some(ws), Ok(())) => {
            &&& workspace_closed(
                old,
                (Session { events: old.events, ..new }),
                ws,
            )
            &&& new.events@ == old.events@.push(
                (Event::WorkspaceClosed { workspace_id: old.workspaces@[ws].id }),
            )
        },
        (None, Err(e)) => e@ == workspace_missing(workspace_id) && new == old,
        _ => false,
    }
}

impl Session {
    pub fn handle_workspace_list(&self, id: String) -> (r: Response<Vec<WorkspaceInfo>>)
        ensures
            r.id == id,
            r.body matches Ok(infos) && are_workspace_infos(infos@, *self),
    {
        Response { id, body: Ok(self.workspace_list_info()) }
    }

    pub fn handle_workspace_get(&self, id: String, workspace_id: &str) -> (r: Response<
        WorkspaceInfo,
    >)
        ensures
            r.id == id,
            workspace_get_outcome(*self, workspace_id@, r.body),
    {
        match self.parse_workspace_id(workspace_id) {
            Some(ws) => Response { id, body: Ok(self.workspace_info(ws)) },
            None => Response { id, body: Err(workspace_not_found(workspace_id)) },
        }
    }

    /// Focus a workspace.
    pub fn handle_workspace_focus(&mut self, id: String, workspace_id: &str) -> (r: Response<
        WorkspaceInfo,
    >)
        ensures
            r.id == id,
            workspace_focus_outcome(*old(self), *final(self), workspace_id@, r.body),
    {
        match self.parse_workspace_id(workspace_id) {
            Some(ws) => {
                self.switch_workspace(ws);
                Response { id, body: Ok(self.workspace_info(ws)) }
            },
            None => Response { id, body: Err(workspace_not_found(workspace_id)) },
        }
    }

    /// Rename a workspace.
    pub fn handle_workspace_rename(&mut self, id: String, workspace_id: &str, label: String) -> (r:
        Response<WorkspaceInfo>)
        ensures
            r.id == id,
            workspace_rename_outcome(*old(self), *final(self), workspace_id@, label, r.body),
    {
        match self.parse_workspace_id(workspace_id) {
            Some(ws) => {
                self.workspaces[ws].custom_name = Some(label.clone());
                self.save_scheduled = true;
                let told = self.workspaces[ws].id.clone();
                self.events.push(Event::WorkspaceRenamed { workspace_id: told, label });
                proof {
                    assert(self.workspaces@ =~= old(self).workspaces@.update(
                        ws as int,
                        self.workspaces@[ws as int],
                    ));
                }
                Response { id, body: Ok(self.workspace_info(ws)) }
            },
            None => Response { id, body: Err(workspace_not_found(workspace_id)) },
        }
    }

    /// Move a workspace.
    pub fn handle_workspace_move(&mut self, id: String, workspace_id: &str, insert_index: usize) -> (r:
        Response<Vec<WorkspaceInfo>>)
        ensures
            r.id == id,
            workspace_move_outcome(*old(self), *final(self), workspace_id@, insert_index, r.body),
    {
        let from: usize = match self.parse_workspace_id(workspace_id) {
            Some(from) => from,
            None => {
                return Response { id, body: Err(workspace_not_found(workspace_id)) };
            },
        };
        if insert_index > self.workspaces.len() {
            return Response {
                id,
                body: Err(insert_index_error("workspace_move_failed", insert_index)),
            };
        }
        let to: usize = if insert_index > from {
            insert_index - 1
        } else {
            insert_index
        };
        if to == from {
            return Response { id, body: Ok(self.workspace_list_info()) };
        }
        let told = self.workspaces[from].id.clone();
        let _ = move_item(&mut self.workspaces, from, insert_index);
        self.active = match self.active {
            Some(active) => Some(follow(active, from, to)),
            None => None,
        };
        self.selected = follow(self.selected, from, to);
        self.save_scheduled = true;
        let ghost before_event = *self;
        let workspaces = self.workspace_list_info();
        let reply = self.workspace_list_info();
        self.events.push(Event::WorkspaceMoved { workspace_id: told, insert_index, workspaces });
        proof {
            lemma_tells_alike(before_event, *self);
        }
        Response { id, body: Ok(reply) }
    }

    /// What a request to move a block asks for, or why it is refused.
    fn plan_block_move(&self, params: &WorkspaceMoveBlockParams) -> (r: Result<
        (Vec<usize>, usize),
        ApiError,
    >)
        ensures
            match (block_move(self.workspaces@, *params), r) {
                (Ok((block, at)), Ok((positions, place))) => {
                    &&& ints(positions@) == block
                    &&& place == at
                    &&& is_block(block, self.workspaces@.len() as int)
                    &&& at <= self.workspaces@.len()
                    &&& params.before_workspace_id is Some ==> at < self.workspaces@.len()
                },
                (Err(refused), Err(e)) => e@ == refused,
                _ => false,
            },
    {
        if params.workspace_ids.len() == 0 {
            return Err(error("workspace_move_block_failed", "workspace_ids must not be empty"));
        }
        let mut block: Vec<usize> = Vec::new();
        let mut i: usize = 0;
        proof {
            assert(ints(block@) =~= Seq::<int>::empty());
        }
        while i < params.workspace_ids.len()
            invariant
                i <= params.workspace_ids@.len(),
                params.workspace_ids@.len() > 0,
                block_of(self.workspaces@, params.workspace_ids@.take(i as int)) == Ok::<
                    Seq<int>,
                    Refusal,
                >(ints(block@)),
            decreases params.workspace_ids@.len() - i,
        {
            let asked = &params.workspace_ids[i];
            let ghost so_far = params.workspace_ids@.take(i + 1);
            proof {
                assert(so_far.drop_last() =~= params.workspace_ids@.take(i as int));
                assert(so_far.last() == *asked);
            }
            match self.parse_workspace_id(asked.as_str()) {
                None => {
                    proof {
                        lemma_refused_prefix(self.workspaces@, params.workspace_ids@, i + 1);
                    }
                    return Err(workspace_not_found(asked.as_str()));
                },
                Some(at) => {
                    let mut k: usize = 0;
                    while k < block.len() && block[k] != at
                        invariant
                            k <= block@.len(),
                            forall|j: int| 0 <= j < k ==> #[trigger] block@[j] != at,
                        decreases block@.len() - k,
                    {
                        k = k + 1;
                    }
                    if k < block.len() {
                        proof {
                            assert(ints(block@)[k as int] == at as int);
                            assert(ints(block@).contains(at as int));
                            lemma_refused_prefix(self.workspaces@, params.workspace_ids@, i + 1);
                        }
                        return Err(
                            ApiError {
                                code: "workspace_move_block_failed",
                                message: join3(
                                    "workspace ",
                                    asked.as_str(),
                                    " appears more than once",
                                ),
                            },
                        );
                    }
                    proof {
                        if ints(block@).contains(at as int) {
                            let j = choose|j: int|
                                0 <= j < ints(block@).len() && ints(block@)[j] == at as int;
                            assert(block@[j] == at);
                        }
                    }
                    let ghost before = block@;
                    block.push(at);
                    proof {
                        assert(ints(block@) =~= ints(before).push(at as int));
                    }
                },
            }
            i = i + 1;
        }
        proof {
            assert(params.workspace_ids@.take(i as int) =~= params.workspace_ids@);
            lemma_block_of(self.workspaces@, params.workspace_ids@);
        }
        match &params.before_workspace_id {
            None => Ok((block, self.workspaces.len())),
            Some(asked) => match self.parse_workspace_id(asked.as_str()) {
                None => Err(workspace_not_found(asked.as_str())),
                Some(at) => {
                    let mut k: usize = 0;
                    while k < block.len() && block[k] != at
                        invariant
                            k <= block@.len(),
                            forall|j: int| 0 <= j < k ==> #[trigger] block@[j] != at,
                        decreases block@.len() - k,
                    {
                        k = k + 1;
                    }
                    if k < block.len() {
                        proof {
                            assert(ints(block@)[k as int] == at as int);
                        }
                        return Err(
                            error(
                                "workspace_move_block_failed",
                                "before_workspace_id must not be part of workspace_ids",
                            ),
                        );
                    }
                    proof {
                        if ints(block@).contains(at as int) {
                            let j = choose|j: int|
                                0 <= j < ints(block@).len() && ints(block@)[j] == at as int;
                            assert(block@[j] == at);
                        }
                    }
                    Ok((block, at))
                },
            },
        }
    }

    /// Move a block of workspaces, all or none.
    pub fn handle_workspace_move_block(
        &mut self,
        id: String,
        params: WorkspaceMoveBlockParams,
    ) -> (r: Response<Vec<WorkspaceInfo>>)
        ensures
            r.id == id,
            block_move_outcome(*old(self), *final(self), params, r.body),
    {
        let (block, at): (Vec<usize>, usize) = match self.plan_block_move(&params) {
            Ok(plan) => plan,
            Err(e) => {
                return Response { id, body: Err(e) };
            },
        };
        let n: usize = self.workspaces.len();
        let order = order_after_block_move(n, &block, at);
        let ghost spec_order = block_order(n as int, ints(block@), at as int);
        proof {
            law_block_moves_keep_every_element(n as int, ints(block@), at as int);
            assert(ints(order@) == spec_order);
            assert forall|i: int| 0 <= i < order@.len() implies #[trigger] order@[i] < n by {
                assert(ints(order@)[i] == order@[i]);
                assert(0 <= spec_order[i] < n);
            }
            assert forall|i: int, j: int| 0 <= i < j < order@.len() implies order@[i]
                != order@[j] by {
                assert(ints(order@)[i] == order@[i] && ints(order@)[j] == order@[j]);
                assert(spec_order[i] != spec_order[j]);
            }
        }
        let mut stays = true;
        let mut i: usize = 0;
        while i < order.len()
            invariant
                i <= order@.len(),
                ints(order@) == spec_order,
                stays <==> forall|j: int| 0 <= j < i ==> #[trigger] spec_order[j] == j,
            decreases order@.len() - i,
        {
            proof {
                assert(ints(order@)[i as int] == order@[i as int]);
            }
            if order[i] != i {
                stays = false;
            }
            i = i + 1;
        }
        if stays {
            return Response { id, body: Ok(self.workspace_list_info()) };
        }
        let ghost source = self.workspaces@;
        let mut workspace_ids: Vec<String> = Vec::new();
        let mut k: usize = 0;
        while k < block.len()
            invariant
                k <= block@.len(),
                self.workspaces@ == source,
                is_block(ints(block@), source.len() as int),
                workspace_ids@.len() == k,
                forall|j: int|
                    0 <= j < k ==> #[trigger] workspace_ids@[j] == source[block@[j] as int].id,
            decreases block@.len() - k,
        {
            proof {
                assert(ints(block@)[k as int] == block@[k as int]);
            }
            workspace_ids.push(self.workspaces[block[k]].id.clone());
            k = k + 1;
        }
        proof {
            assert(workspace_ids@ =~= ints(block@).map_values(|i: int| source[i].id));
        }
        let before_workspace_id: Option<String> = match &params.before_workspace_id {
            Some(_) => Some(self.workspaces[at].id.clone()),
            None => None,
        };
        let active: Option<usize> = match self.active {
            Some(active) => Some(place_of(&order, active)),
            None => None,
        };
        let selected: usize = place_of(&order, self.selected);
        let mut taken: Vec<Workspace> = Vec::new();
        taken.append(&mut self.workspaces);
        proof {
            assert(taken@ =~= source);
        }
        self.workspaces = reorder(taken, &order);
        self.active = active;
        self.selected = selected;
        self.save_scheduled = true;
        let ghost before_event = *self;
        let workspaces = self.workspace_list_info();
        let reply = self.workspace_list_info();
        self.events.push(
            Event::WorkspaceReordered { workspace_ids, before_workspace_id, workspaces },
        );
        proof {
            lemma_tells_alike(before_event, *self);
            assert(!in_place(spec_order));
        }
        Response { id, body: Ok(reply) }
    }

    /// Close a workspace, and it alone, whatever it shares a repository with.
    pub fn handle_workspace_close(&mut self, id: String, workspace_id: &str) -> (r: Response<()>)
        ensures
            r.id == id,
            workspace_close_outcome(*old(self), *final(self), workspace_id@, r.body),
    {
        match self.parse_workspace_id(workspace_id) {
            Some(ws) => {
                let told = self.workspaces[ws].id.clone();
                self.close_workspace(ws);
                self.events.push(Event::WorkspaceClosed { workspace_id: told });
                Response { id, body: Ok(()) }
            },
            None => Response { id, body: Err(workspace_not_found(workspace_id)) },
        }
    }
}

/// A block that is refused early is refused whatever follows.
proof fn lemma_refused_prefix(ws: Seq<Workspace>, ids: Seq<String>, n: int)
    requires
        0 <= n <= ids.len(),
        block_of(ws, ids.take(n)) is Err,
    ensures
        block_of(ws, ids) == block_of(ws, ids.take(n)),
    decreases ids.len() - n,
{
    if n < ids.len() {
        assert(ids.take(n + 1).drop_last() =~= ids.take(n));
        lemma_refused_prefix(ws, ids, n + 1);
    } else {
        assert(ids.take(n) =~= ids);
    }
}

proof fn lemma_place_in(order: Seq<int>, i: int, k: int)
    requires
        0 <= k < order.len(),
        order[k] == i,
        forall|j: int| 0 <= j < k ==> #[trigger] order[j] != i,
    ensures
        place_in(order, i) == k,
{
    broadcast use lemma_first_where;

    let at = place_in(order, i);
    assert(order[k] == i);
    assert(order[at] == i);
}

fn place_of(order: &Vec<usize>, i: usize) -> (r: usize)
    ensures
        r == place_in(ints(order@), i as int),
{
    broadcast use lemma_first_where;

    let mut k: usize = 0;
    while k < order.len()
        invariant
            k <= order@.len(),
            forall|j: int| 0 <= j < k ==> #[trigger] ints(order@)[j] != i as int,
        decreases order@.len() - k,
    {
        proof {
            assert(ints(order@)[k as int] == order@[k as int]);
        }
        if order[k] == i {
            proof {
                lemma_place_in(ints(order@), i as int, k as int);
            }
            return k;
        }
        k = k + 1;
    }
    i
}

// ---------------------------------------------------------------------------------------------
// Creating
// ---------------------------------------------------------------------------------------------

/// The workspace that a new pane makes.
pub open spec fn is_new_workspace(
    w: Workspace,
    made: NewWorkspace,
    label: Option<String>,
    tab_label: Option<String>,
) -> bool {
    &&& w.id == made.id
    &&& w.custom_name == label
    &&& w.auto_label == made.auto_label
    &&& w.identity_cwd == made.identity_cwd
    &&& w.tabs@.len() == 1
    &&& is_new_tab(w.tabs@[0], made.pane, tab_label, true)
    &&& w.active_tab == 0
    &&& w.worktree is None
    &&& w.tokens.tokens@.len() == 0
    &&& w.tokens.sequences@.len() == 0
}

/// `new` is `old` with a workspace added at the end. It gets the focus where that is asked for,
/// and where nothing else has it.
pub open spec fn workspace_added(
    old: Session,
    new: Session,
    made: NewWorkspace,
    label: Option<String>,
    tab_label: Option<String>,
    focus: bool,
) -> bool {
    let at = old.workspaces@.len() as int;
    let focused = focus || old.active is None;
    &&& new == (Session {
        workspaces: new.workspaces,
        terminals: new.terminals,
        pane_aliases: new.pane_aliases,
        events: new.events,
        active: if focused {
            Some(at as usize)
        } else {
            old.active
        },
        selected: if focused {
            at as usize
        } else {
            old.selected
        },
        mode: if focused {
            Mode::Terminal
        } else {
            old.mode
        },
        save_scheduled: true,
        ..old
    })
    &&& new.workspaces@.len() == at + 1
    &&& new.workspaces@ == old.workspaces@.push(new.workspaces@[at])
    &&& is_new_workspace(new.workspaces@[at], made, label, tab_label)
    &&& new.terminals@ == old.terminals@.push(made.pane.terminal)
    &&& new.pane_aliases@ == old.pane_aliases@.filter(
        |a: PaneAlias| a.alias@ != made.pane.public_pane_id@,
    )
}

/// The last three of the events tell of a new workspace, of its tab and of the pane in it.
pub open spec fn tells_new_workspace(events: Seq<Event>, session: Session, ws: int, pane: u64) -> bool {
    &&& events.len() >= 3
    &&& events[events.len() - 3] matches Event::WorkspaceCreated { workspace }
        && is_workspace_info(workspace, session, ws)
    &&& tells_new_tab(events, session, ws, 0, pane)
}

proof fn lemma_new_workspace_has_info(before: Session, after: Session, made: NewWorkspace)
    requires
        after.workspaces@.len() == before.workspaces@.len() + 1,
        after.workspaces@.last().tabs@.len() == 1,
        after.workspaces@.last().tabs@[0].panes@.len() == 1,
        after.workspaces@.last().tabs@[0].panes@[0].id == made.pane.pane,
        after.workspaces@.last().tabs@[0].panes@[0].terminal_id == made.pane.terminal.id,
        after.terminals@ == before.terminals@.push(made.pane.terminal),
    ensures
        has_info(after, before.workspaces@.len() as int, made.pane.pane),
{
    broadcast use lemma_first_where;

    let n = before.workspaces@.len() as int;
    let w = after.workspaces@[n];
    assert(w == after.workspaces@.last());
    let pane = made.pane.pane;
    assert(pane_at(w.tabs@[0].panes@, pane) is Some) by {
        assert(w.tabs@[0].panes@[0].id == pane);
    }
    assert(tab_of_pane(w.tabs@, pane) is Some) by {
        assert(pane_at(w.tabs@[0].panes@, pane) is Some);
    }
    assert(tab_of_pane(w.tabs@, pane)->Some_0 == 0);
    assert(pane_at(w.tabs@[0].panes@, pane)->Some_0 == 0);
    assert(after.terminals@[before.terminals@.len() as int].id@ == made.pane.terminal.id@);
    assert(terminal_at(after.terminals@, made.pane.terminal.id@) is Some);
}

/// What a request for a new workspace does, once its terminal was started or failed to.
pub open spec fn workspace_create_outcome(
    old: Session,
    new: Session,
    label: Option<String>,
    focus: bool,
    started: Result<NewWorkspace, String>,
    body: Result<CreatedWorkspace, ApiError>,
) -> bool {
    match (started, body) {
        (Err(problem), Err(e)) => e@ == refusal("workspace_create_failed"@, problem@)
            && new == old,
        (Ok(made), Ok(created)) => {
            let at = old.workspaces@.len() as int;
            let n = old.events@.len() as int;
            &&& workspace_added(old, new, made, label, None, focus)
            &&& is_workspace_info(created.workspace, new, at)
            &&& is_tab_info(created.tab, new, at, 0)
            &&& is_pane_info(created.root_pane, new, at, made.pane.pane)
            &&& new.events@.len() == n + 3
            &&& new.events@.take(n) == old.events@
            &&& tells_new_workspace(
                new.events@,
                new,
                at,
                made.pane.pane,
            )
        },
        _ => false,
    }
}

impl Session {
    /// Add a workspace whose first terminal was started: its position.
    pub fn create_workspace_with_options(
        &mut self,
        made: NewWorkspace,
        label: Option<String>,
        tab_label: Option<String>,
        focus: bool,
    ) -> (r: usize)
        ensures
            r == old(self).workspaces@.len(),
            workspace_added(*old(self), *final(self), made, label, tab_label, focus),
            final(self).events == old(self).events,
            has_info(*final(self), r as int, made.pane.pane),
    {
        let ghost asked = made;
        let at: usize = self.workspaces.len();
        let pane = made.pane;
        self.remove_alias_shadowed_by_new_pane(pane.public_pane_id.as_str());
        let mut panes: Vec<Pane> = Vec::new();
        panes.push(
            Pane {
                id: pane.pane,
                public_id: pane.public_pane_id,
                terminal_id: pane.terminal.id.clone(),
                seen: true,
            },
        );
        let mut tabs: Vec<Tab> = Vec::new();
        tabs.push(
            Tab {
                public_id: pane.public_tab_id,
                custom_name: tab_label,
                panes,
                root_pane: pane.pane,
                focused: pane.pane,
                zoomed: false,
            },
        );
        self.terminals.push(pane.terminal);
        self.workspaces.push(
            Workspace {
                id: made.id,
                custom_name: label,
                auto_label: made.auto_label,
                identity_cwd: made.identity_cwd,
                tabs,
                active_tab: 0,
                worktree: None,
                tokens: TokenStore::new(),
            },
        );
        if focus || self.active.is_none() {
            self.active = Some(at);
            self.selected = at;
            self.mode = Mode::Terminal;
        }
        self.save_scheduled = true;
        proof {
            let w = self.workspaces@[at as int];
            assert(self.workspaces@ =~= old(self).workspaces@.push(w));
            assert(w.tabs@[0].panes@ =~= seq![
                Pane {
                    id: asked.pane.pane,
                    public_id: asked.pane.public_pane_id,
                    terminal_id: asked.pane.terminal.id,
                    seen: true,
                },
            ]);
            lemma_new_workspace_has_info(*old(self), *self, asked);
        }
        at
    }

    /// Tell of a new workspace, of its tab and of the pane in it.
    pub fn emit_workspace_open_events(&mut self, ws: usize)
        requires
            ws < old(self).workspaces@.len(),
            old(self).workspaces@[ws as int].tabs@.len() > 0,
            has_info(*old(self), ws as int, old(self).workspaces@[ws as int].tabs@[0].root_pane),
        ensures
            *final(self) == (Session { events: final(self).events, ..*old(self) }),
            final(self).events@.len() == old(self).events@.len() + 3,
            final(self).events@.take(old(self).events@.len() as int) == old(self).events@,
            tells_new_workspace(
                final(self).events@,
                *final(self),
                ws as int,
                old(self).workspaces@[ws as int].tabs@[0].root_pane,
            ),
            has_info(*final(self), ws as int, old(self).workspaces@[ws as int].tabs@[0].root_pane),
    {
        let workspace = self.workspace_info(ws);
        self.events.push(Event::WorkspaceCreated { workspace });
        proof {
            lemma_tells_alike(*old(self), *self);
        }
        let ghost mid = *self;
        self.emit_tab_created_events(ws, 0);
        proof {
            let n = old(self).events@.len() as int;
            lemma_tells_alike(mid, *self);
            assert(self.events@.take(n) =~= self.events@.take(n + 1).take(n));
            assert(self.events@[n] == self.events@.take(n + 1)[n]);
            assert(self.events@.take(n) =~= old(self).events@);
        }
    }

    /// The first terminal of a new workspace was started, or could not be: add the workspace, or
    /// say why not.
    pub fn handle_workspace_create(
        &mut self,
        id: String,
        label: Option<String>,
        focus: bool,
        started: Result<NewWorkspace, String>,
    ) -> (r: Response<CreatedWorkspace>)
        ensures
            r.id == id,
            workspace_create_outcome(*old(self), *final(self), label, focus, started, r.body),
    {
        let made = match started {
            Ok(made) => made,
            Err(problem) => {
                return Response {
                    id,
                    body: Err(ApiError { code: "workspace_create_failed", message: problem }),
                };
            },
        };
        let ghost asked = made;
        let at: usize = self.create_workspace_with_options(made, label, None, focus);
        self.emit_workspace_open_events(at);
        proof {
            assert(self.workspaces@[at as int].tabs@[0].root_pane == asked.pane.pane);
        }
        match self.workspace_created_result(at) {
            Some(created) => Response { id, body: Ok(created) },
            None => {
                proof {
                    assert(false);
                }
                Response { id, body: Err(error("workspace_create_failed", "")) }
            },
        }
    }

    /// A tab was asked for from the interface and its terminal started, or could not be. Without
    /// an active workspace the tab is the first of a new one, and its name is the tab's.
    pub fn create_tab(&mut self, custom_name: Option<String>, started: Result<StartedTab, String>) -> (r:
        Result<(), String>)
        requires
            match started {
                Ok(StartedTab::InActive(pane)) => old(self).active matches Some(ws) && ws < old(
                    self,
                ).workspaces@.len() && tab_of_pane(
                    old(self).workspaces@[ws as int].tabs@,
                    pane.pane,
                ) is None,
                Ok(StartedTab::InNewWorkspace(_)) => old(self).active is None,
                Err(_) => true,
            },
        ensures
            match started {
                Err(problem) => r == Err::<(), String>(problem) && *final(self) == *old(self),
                Ok(StartedTab::InActive(pane)) => {
                    let ws = old(self).active->Some_0 as int;
                    let tab = old(self).workspaces@[ws].tabs@.len() as int;
                    let n = old(self).events@.len() as int;
                    &&& r is Ok
                    &&& tab_added(*old(self), *final(self), ws, pane, custom_name, true)
                    &&& final(self).events@.len() == n + 2
                    &&& final(self).events@.take(n) == old(self).events@
                    &&& tells_new_tab(final(self).events@, *final(self), ws, tab, pane.pane)
                },
                Ok(StartedTab::InNewWorkspace(made)) => {
                    let at = old(self).workspaces@.len() as int;
                    let n = old(self).events@.len() as int;
                    &&& r is Ok
                    &&& workspace_added(*old(self), *final(self), made, None, custom_name, true)
                    &&& final(self).events@.len() == n + 3
                    &&& final(self).events@.take(n) == old(self).events@
                    &&& tells_new_workspace(
                        final(self).events@,
                        *final(self),
                        at,
                        made.pane.pane,
                    )
                },
            },
    {
        match started {
            Err(problem) => Err(problem),
            Ok(StartedTab::InActive(pane)) => {
                match self.active {
                    Some(ws) => {
                        let tab: usize = self.add_tab(ws, pane, custom_name, true);
                        self.emit_tab_created_events(ws, tab);
                    },
                    None => {},
                }
                Ok(())
            },
            Ok(StartedTab::InNewWorkspace(made)) => {
                let at: usize = self.create_workspace_with_options(made, None, custom_name, true);
                self.emit_workspace_open_events(at);
                Ok(())
            },
        }
    }
}

// ---------------------------------------------------------------------------------------------
// Metadata
// ---------------------------------------------------------------------------------------------

/// When the next token of some terminals expires.
pub open spec fn terminals_expiry(terminals: Seq<Terminal>) -> Option<u64>
    decreases terminals.len(),
{
    if terminals.len() == 0 {
        None
    } else {
        earlier(
            terminals_expiry(terminals.drop_last()),
            expiry(terminals.last().tokens.tokens@),
        )
    }
}

/// When the next token of some workspaces expires.
pub open spec fn workspaces_expiry(ws: Seq<Workspace>) -> Option<u64>
    decreases ws.len(),
{
    if ws.len() == 0 {
        None
    } else {
        earlier(workspaces_expiry(ws.drop_last()), expiry(ws.last().tokens.tokens@))
    }
}

/// `new` is `old` with its tokens after a report; nothing else of it changes.
pub open spec fn only_tokens_changed(old: Workspace, new: Workspace) -> bool {
    new == (Workspace { tokens: new.tokens, ..old })
}

/// `new` is `old` after a report on a workspace, which `refused` says was refused: the workspace's
/// tokens are what the report makes of them; where one changed, listeners are told and the time of
/// the next expiry is worked out again.
pub open spec fn metadata_reported(
    old: Session,
    new: Session,
    workspace_id: Seq<char>,
    report: MetadataReport,
    now: u64,
    refused: Option<Refusal>,
) -> bool {
    match workspace_at(old.workspaces@, workspace_id) {
        None => refused == Some(workspace_missing(workspace_id)) && new == old,
        Some(ws) => {
            let before = old.workspaces@[ws];
            let after = new.workspaces@[ws];
            let changed = new.events@.len() != old.events@.len();
            &&& new.workspaces@.len() == old.workspaces@.len()
            &&& new.workspaces@ == old.workspaces@.update(ws, after)
            &&& only_tokens_changed(before, after)
            &&& report_outcome(
                before.tokens,
                after.tokens,
                report,
                "workspace"@,
                now,
                changed,
                refused,
            )
            &&& new == (Session {
                workspaces: new.workspaces,
                events: new.events,
                metadata_deadline: if changed {
                    new.spec_next_expiry()
                } else {
                    old.metadata_deadline
                },
                ..old
            })
            &&& if changed {
                &&& new.events@.len() == old.events@.len() + 1
                &&& new.events@ == old.events@.push(new.events@.last())
                &&& new.events@.last() matches Event::WorkspaceMetadataUpdated { workspace }
                    && is_workspace_info(workspace, new, ws)
            } else {
                new.events == old.events
            }
        },
    }
}

/// `new` is `old` without the tokens that have expired.
pub open spec fn tokens_expired(old: TokenStore, new: TokenStore, now: u64) -> bool {
    new.tokens@ == unexpired(old.tokens@, now) && new.sequences == old.sequences
}

/// Some of the tokens have expired.
pub open spec fn loses_tokens(store: TokenStore, now: u64) -> bool {
    unexpired(store.tokens@, now).len() != store.tokens@.len()
}

fn sooner(a: Option<u64>, b: Option<u64>) -> (r: Option<u64>)
    ensures
        r == earlier(a, b),
{
    match (a, b) {
        (Some(x), Some(y)) => if x <= y {
            Some(x)
        } else {
            Some(y)
        },
        (Some(x), None) => Some(x),
        (None, y) => y,
    }
}

impl Session {
    /// No list of tokens has a key twice.
    pub open spec fn tokens_wf(&self) -> bool {
        &&& forall|i: int|
            0 <= i < self.workspaces@.len() ==> (#[trigger] self.workspaces@[i]).tokens.wf()
        &&& forall|i: int|
            0 <= i < self.terminals@.len() ==> (#[trigger] self.terminals@[i]).tokens.wf()
    }

    /// When the next metadata of any kind expires.
    pub open spec fn spec_next_expiry(&self) -> Option<u64> {
        earlier(
            self.presentation_deadline,
            earlier(terminals_expiry(self.terminals@), workspaces_expiry(self.workspaces@)),
        )
    }

    /// Work out again when metadata next expires.
    pub fn sync_agent_metadata_deadline(&mut self)
        ensures
            *final(self) == (Session { metadata_deadline: old(self).spec_next_expiry(), ..*old(self)
            }),
    {
        let mut first: Option<u64> = None;
        let mut i: usize = 0;
        while i < self.terminals.len()
            invariant
                i <= self.terminals@.len(),
                first == terminals_expiry(self.terminals@.take(i as int)),
            decreases self.terminals@.len() - i,
        {
            proof {
                assert(self.terminals@.take(i + 1).drop_last() =~= self.terminals@.take(i as int));
            }
            first = sooner(first, self.terminals[i].tokens.next_expiry());
            i = i + 1;
        }
        proof {
            assert(self.terminals@.take(i as int) =~= self.terminals@);
        }
        let mut second: Option<u64> = None;
        let mut k: usize = 0;
        while k < self.workspaces.len()
            invariant
                k <= self.workspaces@.len(),
                second == workspaces_expiry(self.workspaces@.take(k as int)),
            decreases self.workspaces@.len() - k,
        {
            proof {
                assert(self.workspaces@.take(k + 1).drop_last() =~= self.workspaces@.take(
                    k as int,
                ));
            }
            second = sooner(second, self.workspaces[k].tokens.next_expiry());
            k = k + 1;
        }
        proof {
            assert(self.workspaces@.take(k as int) =~= self.workspaces@);
        }
        self.metadata_deadline = sooner(self.presentation_deadline, sooner(first, second));
    }

    /// Take in what a producer reports of a workspace.
    pub fn handle_workspace_report_metadata(
        &mut self,
        id: String,
        workspace_id: &str,
        report: &MetadataReport,
        now: u64,
    ) -> (r: Response<()>)
        requires
            old(self).tokens_wf(),
        ensures
            r.id == id,
            final(self).tokens_wf(),
            metadata_reported(
                *old(self),
                *final(self),
                workspace_id@,
                *report,
                now,
                r.refusal(),
            ),
    {
        let ws: usize = match self.parse_workspace_id(workspace_id) {
            Some(ws) => ws,
            None => {
                return Response { id, body: Err(workspace_not_found(workspace_id)) };
            },
        };
        proof {
            assert(self.workspaces@[ws as int].tokens.wf());
        }
        let taken = self.workspaces[ws].tokens.report(report, "workspace", now);
        proof {
            let after = self.workspaces@[ws as int];
            assert(self.workspaces@ =~= old(self).workspaces@.update(ws as int, after));
            assert forall|i: int| 0 <= i < self.workspaces@.len() implies (
            #[trigger] self.workspaces@[i]).tokens.wf() by {
                if i != ws {
                    assert(old(self).workspaces@[i].tokens.wf());
                }
            }
        }
        match taken {
            Err(e) => Response { id, body: Err(e) },
            Ok(changed) => {
                if changed {
                    self.sync_agent_metadata_deadline();
                    let ghost before_event = *self;
                    let workspace = self.workspace_info(ws);
                    self.events.push(Event::WorkspaceMetadataUpdated { workspace });
                    proof {
                        lemma_tells_alike(before_event, *self);
                    }
                }
                Response { id, body: Ok(()) }
            },
        }
    }

    /// `new` is `self` without the tokens that have expired.
    pub open spec fn all_expired(&self, new: Session, now: u64) -> bool {
        &&& new.terminals@.len() == self.terminals@.len()
        &&& forall|i: int|
            0 <= i < self.terminals@.len() ==> {
                &&& (#[trigger] new.terminals@[i]) == (Terminal {
                    tokens: new.terminals@[i].tokens,
                    revision: if loses_tokens(self.terminals@[i].tokens, now) {
                        next_revision(self.terminals@[i].revision)
                    } else {
                        self.terminals@[i].revision
                    },
                    ..self.terminals@[i]
                })
                &&& tokens_expired(self.terminals@[i].tokens, new.terminals@[i].tokens, now)
            }
        &&& new.workspaces@.len() == self.workspaces@.len()
        &&& forall|i: int|
            0 <= i < self.workspaces@.len() ==> {
                &&& only_tokens_changed(self.workspaces@[i], #[trigger] new.workspaces@[i])
                &&& tokens_expired(self.workspaces@[i].tokens, new.workspaces@[i].tokens, now)
            }
    }

    /// Let go of the tokens whose time is up; a terminal that loses some has a new revision. The
    /// flags say of which terminals and of which workspaces some went.
    pub fn expire_metadata_tokens(&mut self, now: u64) -> (r: (Vec<bool>, Vec<bool>))
        requires
            old(self).tokens_wf(),
        ensures
            final(self).tokens_wf(),
            *final(self) == (Session {
                terminals: final(self).terminals,
                workspaces: final(self).workspaces,
                ..*old(self)
            }),
            old(self).all_expired(*final(self), now),
            r.0@.len() == old(self).terminals@.len(),
            forall|i: int|
                0 <= i < r.0@.len() ==> #[trigger] r.0@[i] == loses_tokens(
                    old(self).terminals@[i].tokens,
                    now,
                ),
            r.1@.len() == old(self).workspaces@.len(),
            forall|i: int|
                0 <= i < r.1@.len() ==> #[trigger] r.1@[i] == loses_tokens(
                    old(self).workspaces@[i].tokens,
                    now,
                ),
    {
        let ghost first = *self;
        let mut terminals: Vec<bool> = Vec::new();
        let mut i: usize = 0;
        while i < self.terminals.len()
            invariant
                *self == (Session { terminals: self.terminals, ..first }),
                self.terminals@.len() == first.terminals@.len(),
                i <= self.terminals@.len(),
                terminals@.len() == i,
                first.tokens_wf(),
                forall|j: int|
                    i <= j < first.terminals@.len() ==> #[trigger] self.terminals@[j]
                        == first.terminals@[j],
                forall|j: int|
                    0 <= j < i ==> {
                        &&& (#[trigger] self.terminals@[j]) == (Terminal {
                            tokens: self.terminals@[j].tokens,
                            revision: if loses_tokens(first.terminals@[j].tokens, now) {
                                next_revision(first.terminals@[j].revision)
                            } else {
                                first.terminals@[j].revision
                            },
                            ..first.terminals@[j]
                        })
                        &&& tokens_expired(
                            first.terminals@[j].tokens,
                            self.terminals@[j].tokens,
                            now,
                        )
                        &&& self.terminals@[j].tokens.wf()
                        &&& terminals@[j] == loses_tokens(first.terminals@[j].tokens, now)
                    },
            decreases self.terminals@.len() - i,
        {
            proof {
                assert(first.terminals@[i as int].tokens.wf());
                assert(self.terminals@[i as int] == first.terminals@[i as int]);
            }
            let changed = self.terminals[i].tokens.expire(now);
            if changed {
                self.terminals[i].revision = revision_after(self.terminals[i].revision);
            }
            terminals.push(changed);
            i = i + 1;
        }
        let ghost second = *self;
        let mut workspaces: Vec<bool> = Vec::new();
        let mut k: usize = 0;
        while k < self.workspaces.len()
            invariant
                *self == (Session { workspaces: self.workspaces, ..second }),
                second.workspaces == first.workspaces,
                first.tokens_wf(),
                self.workspaces@.len() == first.workspaces@.len(),
                k <= self.workspaces@.len(),
                workspaces@.len() == k,
                forall|j: int|
                    k <= j < first.workspaces@.len() ==> #[trigger] self.workspaces@[j]
                        == first.workspaces@[j],
                forall|j: int|
                    0 <= j < k ==> {
                        &&& only_tokens_changed(
                            first.workspaces@[j],
                            #[trigger] self.workspaces@[j],
                        )
                        &&& tokens_expired(
                            first.workspaces@[j].tokens,
                            self.workspaces@[j].tokens,
                            now,
                        )
                        &&& self.workspaces@[j].tokens.wf()
                        &&& workspaces@[j] == loses_tokens(first.workspaces@[j].tokens, now)
                    },
            decreases self.workspaces@.len() - k,
        {
            proof {
                assert(first.workspaces@[k as int].tokens.wf());
                assert(self.workspaces@[k as int] == first.workspaces@[k as int]);
            }
            let changed = self.workspaces[k].tokens.expire(now);
            workspaces.push(changed);
            k = k + 1;
        }
        proof {
            assert forall|j: int| 0 <= j < terminals@.len() implies #[trigger] terminals@[j]
                == loses_tokens(first.terminals@[j].tokens, now) by {
                assert(self.terminals@[j] == second.terminals@[j]);
            }
            assert forall|j: int| 0 <= j < workspaces@.len() implies #[trigger] workspaces@[j]
                == loses_tokens(first.workspaces@[j].tokens, now) by {
                assert(only_tokens_changed(first.workspaces@[j], self.workspaces@[j]));
            }
        }
        (terminals, workspaces)
    }
}

/// A report on a workspace is for show: it changes tokens, and neither the workspace's names and
/// tabs nor its worktree.
pub proof fn law_reports_are_presentation_only(before: Workspace, after: Workspace)
    requires
        only_tokens_changed(before, after),
    ensures
        after.id == before.id,
        after.tabs == before.tabs,
        after.custom_name == before.custom_name,
        after.worktree == before.worktree,
{
}

/// A report on a workspace that is refused, or stale, leaves the session as it was: no token of it
/// is applied, its number is not used up, and nobody is told of anything. A stale one is answered
/// with success.
pub proof fn law_a_report_that_does_not_count_changes_no_session(
    before: Session,
    after: Session,
    workspace_id: Seq<char>,
    report: MetadataReport,
    now: u64,
    refused: Option<Refusal>,
    ws: int,
)
    requires
        workspace_at(before.workspaces@, workspace_id) == Some(ws),
        0 <= ws < before.workspaces@.len(),
        metadata_reported(before, after, workspace_id, report, now, refused),
        refused is Some || !is_fresh(
            before.workspaces@[ws].tokens.sequences@,
            trimmed(report.source@),
            report.seq,
        ),
    ensures
        after.workspaces@ == before.workspaces@,
        after.events == before.events,
        after == (Session { workspaces: after.workspaces, ..before }),
        report_problem(report) is None && !is_fresh(
            before.workspaces@[ws].tokens.sequences@,
            trimmed(report.source@),
            report.seq,
        ) ==> refused is None,
{
    assert(after.workspaces@ =~= before.workspaces@);
}

/// After expiry at some time nothing is left that expires by then.
pub proof fn law_nothing_expired_is_left(tokens: Seq<crate::metadata::Token>, now: u64, i: int)
    requires
        0 <= i < unexpired(tokens, now).len(),
    ensures
        !(unexpired(tokens, now)[i].expires_at matches Some(at) && at <= now),
{
    tokens.lemma_filter_pred(
        |t: crate::metadata::Token| !(t.expires_at matches Some(at) && at <= now),
        i,
    );
}

} // verus!
