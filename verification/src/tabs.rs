//! Requests about tabs.

use vstd::prelude::*;
use vstd::string::*;
use crate::closing::{tab_closed, workspace_closed};
use crate::focus::focus_moved;
use crate::info::{
    all_tabs_told, are_tab_infos, has_info, is_pane_info, is_tab_info, lemma_tells_alike,
    CreatedTab, TabInfo,
};
use crate::moves::{landing, move_item, moved};
use crate::response::{
    error, insert_index_error, insert_out_of_bounds, refusal, tab_missing, tab_not_found,
    workspace_missing, workspace_not_found, ApiError, Refusal, Response,
};
use crate::search::{lemma_first_where, retain_marked};
use crate::session::{
    pane_at, tab_in, tab_of_pane, terminal_at, workspace_at, Event, Mode, Pane, PaneAlias, Session,
    Tab, Terminal, Workspace,
};
use crate::text::{opt_view, same_text};

verus! {

pub struct TabCreateParams {
    pub workspace_id: Option<String>,
    pub cwd: Option<String>,
    pub focus: bool,
    pub label: Option<String>,
}

/// What starting a terminal for a new tab gave.
pub struct NewPane {
    pub pane: u64,
    pub public_pane_id: String,
    pub public_tab_id: String,
    pub terminal: Terminal,
}

/// Where a new tab goes, and where its terminal starts.
#[derive(Debug)]
pub struct TabPlan {
    pub workspace: usize,
    /// The directory asked for.
    pub cwd: Option<String>,
    /// The directory to follow where none is asked for.
    pub follow: Option<String>,
}

/// The workspace a new tab goes to: the one named, else the active one.
pub open spec fn target_workspace(session: Session, workspace_id: Option<Seq<char>>) -> Result<
    int,
    Refusal,
> {
    match workspace_id {
        Some(id) => match workspace_at(session.workspaces@, id) {
            Some(ws) => Ok(ws),
            None => Err(workspace_missing(id)),
        },
        None => match session.active {
            Some(active) => if active < session.workspaces@.len() {
                Ok(active as int)
            } else {
                Err(refusal("tab_create_failed"@, "workspace disappeared"@))
            },
            None => Err(refusal("workspace_not_found"@, "no active workspace"@)),
        },
    }
}

/// The directory the focused pane of a workspace suggests.
pub open spec fn focused_follow(session: Session, ws: int) -> Option<String> {
    if 0 <= ws < session.workspaces@.len() {
        match session.workspaces@[ws].spec_focused_pane() {
            Some(pane) => match session.spec_terminal_of(ws, pane) {
                Some(terminal) => terminal.spec_follow_cwd(),
                None => None,
            },
            None => None,
        }
    } else {
        None
    }
}

/// The tab that a new pane makes.
pub open spec fn is_new_tab(tab: Tab, pane: NewPane, label: Option<String>, seen: bool) -> bool {
    &&& tab.public_id == pane.public_tab_id
    &&& tab.custom_name == label
    &&& tab.panes@ == seq![
        Pane {
            id: pane.pane,
            public_id: pane.public_pane_id,
            terminal_id: pane.terminal.id,
            seen,
        },
    ]
    &&& tab.root_pane == pane.pane
    &&& tab.focused == pane.pane
    &&& !tab.zoomed
}

/// `new` is `old` with a tab added for a new pane at the end of a workspace. An alias that the new
/// pane's own id would shadow is gone.
pub open spec fn tab_added(
    old: Session,
    new: Session,
    ws: int,
    pane: NewPane,
    label: Option<String>,
    focus: bool,
) -> bool {
    let before = old.workspaces@[ws];
    let after = new.workspaces@[ws];
    let at = before.tabs@.len() as int;
    &&& new == (Session {
        workspaces: new.workspaces,
        terminals: new.terminals,
        pane_aliases: new.pane_aliases,
        events: new.events,
        active: if focus {
            Some(ws as usize)
        } else {
            old.active
        },
        selected: if focus {
            ws as usize
        } else {
            old.selected
        },
        mode: if focus {
            Mode::Terminal
        } else {
            old.mode
        },
        save_scheduled: true,
        ..old
    })
    &&& new.workspaces@.len() == old.workspaces@.len()
    &&& new.workspaces@ == old.workspaces@.update(ws, after)
    &&& after == (Workspace { tabs: after.tabs, active_tab: after.active_tab, ..before })
    &&& after.active_tab == if focus {
        at as usize
    } else {
        before.active_tab
    }
    &&& after.tabs@.len() == at + 1
    &&& after.tabs@ == before.tabs@.push(after.tabs@[at])
    &&& is_new_tab(after.tabs@[at], pane, label, true)
    &&& new.terminals@ == old.terminals@.push(pane.terminal)
    &&& new.pane_aliases@ == old.pane_aliases@.filter(
        |a: PaneAlias| a.alias@ != pane.public_pane_id@,
    )
}

/// The last two of the events tell of a new tab and of the pane in it.
pub open spec fn tells_new_tab(events: Seq<Event>, session: Session, ws: int, tab: int, pane: u64) -> bool {
    let n = events.len() - 2;
    &&& n >= 0
    &&& events[n] matches Event::TabCreated { tab: told } && is_tab_info(told, session, ws, tab)
    &&& events[n + 1] matches Event::PaneCreated { pane: told } && is_pane_info(
        told,
        session,
        ws,
        pane,
    )
}

/// `new` is `old` with two events that tell of a new tab, the rest being the same.
pub open spec fn new_tab_told(old: Session, new: Session, ws: int, tab: int, pane: u64) -> bool {
    let n = old.events@.len() as int;
    &&& new == (Session { events: new.events, ..old })
    &&& new.events@.len() == n + 2
    &&& new.events@.take(n) == old.events@
    &&& tells_new_tab(new.events@, new, ws, tab, pane)
}

/// `new` is `old` with a tab renamed. The tab bar is worked out again only where it is on screen.
pub open spec fn tab_renamed(old: Session, new: Session, ws: int, tab: int, label: String) -> bool {
    let before = old.workspaces@[ws];
    let after = new.workspaces@[ws];
    &&& new == (Session {
        workspaces: new.workspaces,
        events: new.events,
        save_scheduled: true,
        tab_bar_stale: old.tab_bar_stale || old.active == Some(ws as usize),
        ..old
    })
    &&& new.workspaces@.len() == old.workspaces@.len()
    &&& new.workspaces@ == old.workspaces@.update(ws, after)
    &&& after == (Workspace { tabs: after.tabs, ..before })
    &&& after.tabs@ == before.tabs@.update(
        tab,
        (Tab { custom_name: Some(label), ..before.tabs@[tab] }),
    )
    &&& new.events@ == old.events@.push(
        (Event::TabRenamed {
            tab_id: before.tabs@[tab].public_id,
            workspace_id: before.id,
            label,
        }),
    )
}

/// `new` is `old` with a tab of a workspace moved, to another place. The active tab stays the
/// same tab.
pub open spec fn tab_moved(old: Session, new: Session, ws: int, tab: int, insert: int) -> bool {
    let before = old.workspaces@[ws];
    let after = new.workspaces@[ws];
    let active = old.active == Some(ws as usize);
    &&& new == (Session {
        workspaces: new.workspaces,
        events: new.events,
        save_scheduled: true,
        tab_bar_stale: old.tab_bar_stale || active,
        tab_scroll_follow_active: old.tab_scroll_follow_active || active,
        ..old
    })
    &&& new.workspaces@.len() == old.workspaces@.len()
    &&& new.workspaces@ == old.workspaces@.update(ws, after)
    &&& after == (Workspace { tabs: after.tabs, active_tab: after.active_tab, ..before })
    &&& after.tabs@ == moved(before.tabs@, tab, insert)
    &&& after.active_tab == crate::moves::followed(
        before.active_tab as int,
        tab,
        landing(tab, insert),
    )
    &&& new.events@.len() == old.events@.len() + 1
    &&& new.events@ == old.events@.push(new.events@.last())
    &&& new.events@.last() matches Event::TabMoved { tab_id, workspace_id, insert_index, tabs }
        && tab_id == before.tabs@[tab].public_id && workspace_id == before.id && insert_index
        == insert && are_tab_infos(tabs@, new, ws)
}

/// The events of a closed tab, and of the workspace that closed with it.
pub open spec fn close_events(tab_id: String, workspace_id: String, closes_workspace: bool) -> Seq<
    Event,
> {
    if closes_workspace {
        seq![
            Event::TabClosed { tab_id, workspace_id },
            Event::WorkspaceClosed { workspace_id },
        ]
    } else {
        seq![Event::TabClosed { tab_id, workspace_id }]
    }
}

/// Why a tab is not closed: it is not there, or its workspace would go with it and that has to be
/// confirmed.
pub open spec fn close_refusal(session: Session, tab_id: Seq<char>, confirm: bool) -> Option<Refusal> {
    match tab_in(session.workspaces@, tab_id) {
        None => Some(tab_missing(tab_id)),
        Some((ws, _)) => if session.workspaces@[ws].tabs@.len() <= 1 && confirm {
            Some(
                refusal(
                    "confirmation_required"@,
                    "closing this tab would close a worktree group"@,
                ),
            )
        } else {
            None
        },
    }
}

/// What a request for tabs is answered.
pub open spec fn tab_list_outcome(
    session: Session,
    workspace_id: Option<Seq<char>>,
    body: Result<Vec<TabInfo>, ApiError>,
) -> bool {
    match (workspace_id, body) {
        (Some(asked), Ok(infos)) => workspace_at(session.workspaces@, asked) matches Some(ws)
            && are_tab_infos(infos@, session, ws),
        (Some(asked), Err(e)) => workspace_at(session.workspaces@, asked) is None && e@
            == workspace_missing(asked),
        (None, Ok(infos)) => all_tabs_told(
            infos@,
            session,
            session.workspaces@.len() as int,
        ),
        (None, Err(_)) => false,
    }
}

/// What a request for a tab is answered.
pub open spec fn tab_get_outcome(
    session: Session,
    tab_id: Seq<char>,
    body: Result<TabInfo, ApiError>,
) -> bool {
    match (tab_in(session.workspaces@, tab_id), body) {
        (Some((ws, tab)), Ok(info)) => is_tab_info(info, session, ws, tab),
        (None, Err(e)) => e@ == tab_missing(tab_id),
        _ => false,
    }
}

/// What a request to focus a tab does.
pub open spec fn tab_focus_outcome(
    old: Session,
    new: Session,
    tab_id: Seq<char>,
    body: Result<TabInfo, ApiError>,
) -> bool {
    match (tab_in(old.workspaces@, tab_id), body) {
        (Some((ws, tab)), Ok(info)) => {
            &&& focus_moved(
                old,
                new,
                ws,
                tab,
                old.workspaces@[ws].tabs@[tab].focused,
            )
            &&& is_tab_info(info, new, ws, tab)
        },
        (None, Err(e)) => e@ == tab_missing(tab_id) && new == old,
        _ => false,
    }
}

/// What a request for a new tab asks for.
pub open spec fn tab_create_planned(
    session: Session,
    params: TabCreateParams,
    planned: Result<TabPlan, ApiError>,
) -> bool {
    match (target_workspace(session, opt_view(params.workspace_id)), planned) {
        (Ok(ws), Ok(plan)) => {
            &&& plan.workspace == ws
            &&& ws < session.workspaces@.len()
            &&& plan.cwd == params.cwd
            &&& plan.follow == if params.cwd is Some {
                None
            } else {
                focused_follow(session, ws)
            }
        },
        (Err(refused), Err(e)) => e@ == refused,
        _ => false,
    }
}

/// What a request for a new tab does, once its terminal was started or failed to.
pub open spec fn tab_create_outcome(
    old: Session,
    new: Session,
    params: TabCreateParams,
    started: Result<NewPane, String>,
    body: Result<CreatedTab, ApiError>,
) -> bool {
    match (target_workspace(old, opt_view(params.workspace_id)), started, body) {
        (Err(refused), _, Err(e)) => e@ == refused && new == old,
        (Ok(_), Err(problem), Err(e)) => e@ == refusal("tab_create_failed"@, problem@)
            && new == old,
        (Ok(ws), Ok(pane), Ok(created)) => {
            let tab = old.workspaces@[ws].tabs@.len() as int;
            let n = old.events@.len() as int;
            &&& tab_added(old, new, ws, pane, params.label, params.focus)
            &&& is_tab_info(created.tab, new, ws, tab)
            &&& is_pane_info(created.root_pane, new, ws, pane.pane)
            &&& new.events@.len() == n + 2
            &&& new.events@.take(n) == old.events@
            &&& tells_new_tab(new.events@, new, ws, tab, pane.pane)
        },
        _ => false,
    }
}

/// What a request to rename a tab does.
pub open spec fn tab_rename_outcome(
    old: Session,
    new: Session,
    tab_id: Seq<char>,
    label: String,
    body: Result<TabInfo, ApiError>,
) -> bool {
    match (tab_in(old.workspaces@, tab_id), body) {
        (Some((ws, tab)), Ok(info)) => tab_renamed(
            old,
            new,
            ws,
            tab,
            label,
        ) && is_tab_info(info, new, ws, tab),
        (None, Err(e)) => e@ == tab_missing(tab_id) && new == old,
        _ => false,
    }
}

/// What a request to move a tab does.
pub open spec fn tab_move_outcome(
    old: Session,
    new: Session,
    tab_id: Seq<char>,
    insert_index: usize,
    body: Result<Vec<TabInfo>, ApiError>,
) -> bool {
    match (tab_in(old.workspaces@, tab_id), body) {
        (None, Err(e)) => e@ == tab_missing(tab_id) && new == old,
        (Some((ws, _)), Err(e)) => {
            &&& insert_index > old.workspaces@[ws].tabs@.len()
            &&& e@ == insert_out_of_bounds("tab_move_failed"@, insert_index as nat)
            &&& new == old
        },
        (Some((ws, tab)), Ok(infos)) => {
            &&& insert_index <= old.workspaces@[ws].tabs@.len()
            &&& are_tab_infos(infos@, new, ws)
            &&& if landing(tab, insert_index as int) != tab {
                tab_moved(old, new, ws, tab, insert_index as int)
            } else {
                new == old
            }
        },
        (None, Ok(_)) => false,
    }
}

/// What a request to close a tab does.
pub open spec fn tab_close_outcome(
    old: Session,
    new: Session,
    tab_id: Seq<char>,
    confirm: bool,
    r: Response<()>,
) -> bool {
    &&& r.refusal() == close_refusal(old, tab_id, confirm)
    &&& match (tab_in(old.workspaces@, tab_id), r.body) {
        (Some((ws, tab)), Ok(())) => {
            let before = old.workspaces@[ws];
            let whole = before.tabs@.len() <= 1;
            &&& new.events@ == old.events@ + close_events(
                before.tabs@[tab].public_id,
                before.id,
                whole,
            )
            &&& if whole {
                workspace_closed(
                    old,
                    (Session { events: old.events, ..new }),
                    ws,
                )
            } else {
                tab_closed(
                    old,
                    (Session {
                        events: old.events,
                        save_scheduled: old.save_scheduled,
                        ..new
                    }),
                    ws,
                    tab,
                ) && new.save_scheduled
            }
        },
        _ => new == old,
    }
}

impl Session {
    pub fn focused_pane_cwd_in_workspace(&self, ws: usize) -> (r: Option<String>)
        ensures
            r == focused_follow(*self, ws as int),
    {
        if ws >= self.workspaces.len() {
            return None;
        }
        match self.workspaces[ws].focused_pane_id() {
            Some(pane) => self.follow_cwd_for_pane_in_workspace(ws, pane),
            None => None,
        }
    }

    /// List the tabs of one workspace, or of all.
    pub fn handle_tab_list(&self, id: String, workspace_id: &Option<String>) -> (r: Response<
        Vec<TabInfo>,
    >)
        ensures
            r.id == id,
            tab_list_outcome(*self, opt_view(*workspace_id), r.body),
    {
        match workspace_id {
            Some(asked) => match self.parse_workspace_id(asked.as_str()) {
                Some(ws) => Response { id, body: Ok(self.tab_list_info(ws)) },
                None => Response { id, body: Err(workspace_not_found(asked.as_str())) },
            },
            None => Response { id, body: Ok(self.all_tab_infos()) },
        }
    }

    pub fn handle_tab_get(&self, id: String, tab_id: &str) -> (r: Response<TabInfo>)
        ensures
            r.id == id,
            tab_get_outcome(*self, tab_id@, r.body),
    {
        match self.parse_tab_id(tab_id) {
            Some((ws, tab)) => match self.tab_info(ws, tab) {
                Some(info) => Response { id, body: Ok(info) },
                None => Response { id, body: Err(tab_not_found(tab_id)) },
            },
            None => Response { id, body: Err(tab_not_found(tab_id)) },
        }
    }

    /// Focus a tab.
    pub fn handle_tab_focus(&mut self, id: String, tab_id: &str) -> (r: Response<TabInfo>)
        ensures
            r.id == id,
            tab_focus_outcome(*old(self), *final(self), tab_id@, r.body),
    {
        match self.parse_tab_id(tab_id) {
            Some((ws, tab)) => {
                self.switch_workspace_tab(ws, tab);
                match self.tab_info(ws, tab) {
                    Some(info) => Response { id, body: Ok(info) },
                    None => Response { id, body: Err(tab_not_found(tab_id)) },
                }
            },
            None => Response { id, body: Err(tab_not_found(tab_id)) },
        }
    }

    /// Where a new tab goes, or why it cannot.
    pub fn plan_tab_create(&self, params: &TabCreateParams) -> (r: Result<TabPlan, ApiError>)
        ensures
            tab_create_planned(*self, *params, r),
    {
        let workspace: usize = match &params.workspace_id {
            Some(id) => match self.parse_workspace_id(id.as_str()) {
                Some(ws) => ws,
                None => {
                    return Err(workspace_not_found(id.as_str()));
                },
            },
            None => match self.active {
                Some(active) => {
                    if active >= self.workspaces.len() {
                        return Err(error("tab_create_failed", "workspace disappeared"));
                    }
                    active
                },
                None => {
                    return Err(error("workspace_not_found", "no active workspace"));
                },
            },
        };
        match &params.cwd {
            Some(cwd) => Ok(TabPlan { workspace, cwd: Some(cwd.clone()), follow: None }),
            None => Ok(
                TabPlan { workspace, cwd: None, follow: self.focused_pane_cwd_in_workspace(workspace) },
            ),
        }
    }

    /// Forget the aliases that a new pane's own id would shadow.
    #[verifier::loop_isolation(false)]
    pub fn remove_alias_shadowed_by_new_pane(&mut self, public_pane_id: &str)
        ensures
            *final(self) == (Session { pane_aliases: final(self).pane_aliases, ..*old(self) }),
            final(self).pane_aliases@ == old(self).pane_aliases@.filter(
                |a: PaneAlias| a.alias@ != public_pane_id@,
            ),
    {
        let ghost all = *self;
        let ghost p = |a: PaneAlias| a.alias@ != public_pane_id@;
        let mut keep: Vec<bool> = Vec::new();
        let mut i: usize = 0;
        while i < self.pane_aliases.len()
            invariant
                *self == all,
                i <= self.pane_aliases@.len(),
                keep@.len() == i,
                forall|j: int| 0 <= j < i ==> #[trigger] keep@[j] == p(self.pane_aliases@[j]),
            decreases self.pane_aliases@.len() - i,
        {
            keep.push(!same_text(self.pane_aliases[i].alias.as_str(), public_pane_id));
            i = i + 1;
        }
        retain_marked(&mut self.pane_aliases, &keep, Ghost(p));
    }

    /// Add a tab for a new pane to a workspace.
    pub fn add_tab(&mut self, ws: usize, pane: NewPane, label: Option<String>, focus: bool) -> (r:
        usize)
        requires
            ws < old(self).workspaces@.len(),
            tab_of_pane(old(self).workspaces@[ws as int].tabs@, pane.pane) is None,
        ensures
            r == old(self).workspaces@[ws as int].tabs@.len(),
            tab_added(*old(self), *final(self), ws as int, pane, label, focus),
            final(self).events == old(self).events,
            has_info(*final(self), ws as int, pane.pane),
    {
        let ghost made = pane;
        let tab: usize = self.workspaces[ws].tabs.len();
        self.remove_alias_shadowed_by_new_pane(pane.public_pane_id.as_str());
        let mut panes: Vec<Pane> = Vec::new();
        panes.push(
            Pane {
                id: pane.pane,
                public_id: pane.public_pane_id,
                terminal_id: pane.terminal.id.clone(),
                seen: true,
            },
        );
        self.terminals.push(pane.terminal);
        self.workspaces[ws].tabs.push(
            Tab {
                public_id: pane.public_tab_id,
                custom_name: label,
                panes,
                root_pane: pane.pane,
                focused: pane.pane,
                zoomed: false,
            },
        );
        if focus {
            self.active = Some(ws);
            self.selected = ws;
            self.workspaces[ws].active_tab = tab;
            self.mode = Mode::Terminal;
        }
        self.save_scheduled = true;
        proof {
            let before = old(self).workspaces@[ws as int];
            let after = self.workspaces@[ws as int];
            assert(self.workspaces@ =~= old(self).workspaces@.update(ws as int, after));
            assert(after.tabs@ =~= before.tabs@.push(after.tabs@[tab as int]));
            assert(after.tabs@[tab as int].panes@ =~= seq![
                Pane {
                    id: made.pane,
                    public_id: made.public_pane_id,
                    terminal_id: made.terminal.id,
                    seen: true,
                },
            ]);
            lemma_new_pane_has_info(*old(self), *self, ws as int, made);
        }
        tab
    }

    /// Tell of a new tab and of the pane in it.
    pub fn emit_tab_created_events(&mut self, ws: usize, tab: usize)
        requires
            ws < old(self).workspaces@.len(),
            tab < old(self).workspaces@[ws as int].tabs@.len(),
            has_info(
                *old(self),
                ws as int,
                old(self).workspaces@[ws as int].tabs@[tab as int].root_pane,
            ),
        ensures
            new_tab_told(
                *old(self),
                *final(self),
                ws as int,
                tab as int,
                old(self).workspaces@[ws as int].tabs@[tab as int].root_pane,
            ),
            has_info(
                *final(self),
                ws as int,
                old(self).workspaces@[ws as int].tabs@[tab as int].root_pane,
            ),
    {
        match self.tab_created_result(ws, tab) {
            Some(told) => {
                self.events.push(Event::TabCreated { tab: told.tab });
                self.events.push(Event::PaneCreated { pane: told.root_pane });
                proof {
                    lemma_tells_alike(*old(self), *self);
                    assert(self.events@.take(old(self).events@.len() as int)
                        =~= old(self).events@);
                }
            },
            None => {},
        }
    }

    /// A new tab's terminal was started, or could not be: add the tab, or say why not.
    pub fn handle_tab_create(
        &mut self,
        id: String,
        params: TabCreateParams,
        started: Result<NewPane, String>,
    ) -> (r: Response<CreatedTab>)
        requires
            started matches Ok(pane) ==> (target_workspace(
                *old(self),
                opt_view(params.workspace_id),
            ) matches Ok(ws) ==> tab_of_pane(old(self).workspaces@[ws].tabs@, pane.pane) is None),
        ensures
            r.id == id,
            tab_create_outcome(*old(self), *final(self), params, started, r.body),
    {
        let plan = match self.plan_tab_create(&params) {
            Ok(plan) => plan,
            Err(e) => {
                return Response { id, body: Err(e) };
            },
        };
        let pane = match started {
            Ok(pane) => pane,
            Err(problem) => {
                return Response {
                    id,
                    body: Err(ApiError { code: "tab_create_failed", message: problem }),
                };
            },
        };
        let ghost root = pane.pane;
        let ws: usize = plan.workspace;
        let tab: usize = self.add_tab(ws, pane, params.label, params.focus);
        self.emit_tab_created_events(ws, tab);
        proof {
            assert(self.workspaces@[ws as int].tabs@[tab as int].root_pane == root);
        }
        match self.tab_created_result(ws, tab) {
            Some(created) => Response { id, body: Ok(created) },
            None => {
                proof {
                    assert(false);
                }
                Response { id, body: Err(error("tab_create_failed", "")) }
            },
        }
    }

    /// Rename a tab.
    pub fn handle_tab_rename(&mut self, id: String, tab_id: &str, label: String) -> (r: Response<
        TabInfo,
    >)
        ensures
            r.id == id,
            tab_rename_outcome(*old(self), *final(self), tab_id@, label, r.body),
    {
        let (ws, tab): (usize, usize) = match self.parse_tab_id(tab_id) {
            Some(found) => found,
            None => {
                return Response { id, body: Err(tab_not_found(tab_id)) };
            },
        };
        self.workspaces[ws].tabs[tab].custom_name = Some(label.clone());
        let on_screen = match self.active {
            Some(active) => active == ws,
            None => false,
        };
        if on_screen {
            self.tab_bar_stale = true;
        }
        self.save_scheduled = true;
        let event = Event::TabRenamed {
            tab_id: self.workspaces[ws].tabs[tab].public_id.clone(),
            workspace_id: self.workspaces[ws].id.clone(),
            label,
        };
        self.events.push(event);
        proof {
            let before = old(self).workspaces@[ws as int];
            let after = self.workspaces@[ws as int];
            assert(self.workspaces@ =~= old(self).workspaces@.update(ws as int, after));
            assert(after.tabs@ =~= before.tabs@.update(tab as int, after.tabs@[tab as int]));
        }
        match self.tab_info(ws, tab) {
            Some(info) => Response { id, body: Ok(info) },
            None => Response { id, body: Err(tab_not_found(tab_id)) },
        }
    }

    /// Move a tab within its workspace.
    pub fn handle_tab_move(&mut self, id: String, tab_id: &str, insert_index: usize) -> (r: Response<
        Vec<TabInfo>,
    >)
        ensures
            r.id == id,
            tab_move_outcome(*old(self), *final(self), tab_id@, insert_index, r.body),
    {
        let (ws, tab): (usize, usize) = match self.parse_tab_id(tab_id) {
            Some(found) => found,
            None => {
                return Response { id, body: Err(tab_not_found(tab_id)) };
            },
        };
        if insert_index > self.workspaces[ws].tabs.len() {
            return Response { id, body: Err(insert_index_error("tab_move_failed", insert_index)) };
        }
        let to: usize = if insert_index > tab {
            insert_index - 1
        } else {
            insert_index
        };
        if to == tab {
            return Response { id, body: Ok(self.tab_list_info(ws)) };
        }
        let told_id = self.workspaces[ws].tabs[tab].public_id.clone();
        let told_workspace = self.workspaces[ws].id.clone();
        let _ = move_item(&mut self.workspaces[ws].tabs, tab, insert_index);
        let active_tab: usize = crate::moves::follow(self.workspaces[ws].active_tab, tab, to);
        self.workspaces[ws].active_tab = active_tab;
        self.save_scheduled = true;
        let on_screen = match self.active {
            Some(active) => active == ws,
            None => false,
        };
        if on_screen {
            self.tab_scroll_follow_active = true;
            self.tab_bar_stale = true;
        }
        let ghost before_event = *self;
        let tabs = self.tab_list_info(ws);
        let reply = self.tab_list_info(ws);
        self.events.push(
            Event::TabMoved {
                tab_id: told_id,
                workspace_id: told_workspace,
                insert_index,
                tabs,
            },
        );
        proof {
            let after = self.workspaces@[ws as int];
            assert(self.workspaces@ =~= old(self).workspaces@.update(ws as int, after));
            lemma_tells_alike(before_event, *self);
        }
        Response { id, body: Ok(reply) }
    }

    /// Close a tab; the only tab of a workspace takes the workspace with it. `confirm` says that
    /// closing the workspace would close a group of worktrees, which has to be confirmed first.
    pub fn handle_tab_close(&mut self, id: String, tab_id: &str, confirm: bool) -> (r: Response<()>)
        ensures
            r.id == id,
            tab_close_outcome(*old(self), *final(self), tab_id@, confirm, r),
    {
        let (ws, tab): (usize, usize) = match self.parse_tab_id(tab_id) {
            Some(found) => found,
            None => {
                return Response { id, body: Err(tab_not_found(tab_id)) };
            },
        };
        let told_id = self.workspaces[ws].tabs[tab].public_id.clone();
        let told_workspace = self.workspaces[ws].id.clone();
        if self.workspaces[ws].tabs.len() <= 1 {
            if confirm {
                return Response {
                    id,
                    body: Err(
                        error(
                            "confirmation_required",
                            "closing this tab would close a worktree group",
                        ),
                    ),
                };
            }
            self.close_workspace(ws);
            self.events.push(
                Event::TabClosed { tab_id: told_id, workspace_id: told_workspace.clone() },
            );
            self.events.push(Event::WorkspaceClosed { workspace_id: told_workspace });
            proof {
                assert(self.events@ =~= old(self).events@ + close_events(
                    old(self).workspaces@[ws as int].tabs@[tab as int].public_id,
                    old(self).workspaces@[ws as int].id,
                    true,
                ));
            }
            return Response { id, body: Ok(()) };
        }
        let _ = self.close_tab(ws, tab);
        self.save_scheduled = true;
        self.events.push(Event::TabClosed { tab_id: told_id, workspace_id: told_workspace });
        proof {
            assert(self.events@ =~= old(self).events@ + close_events(
                old(self).workspaces@[ws as int].tabs@[tab as int].public_id,
                old(self).workspaces@[ws as int].id,
                false,
            ));
        }
        Response { id, body: Ok(()) }
    }
}

/// There is something to say of the pane of a tab that was just added.
proof fn lemma_new_pane_has_info(before: Session, after: Session, ws: int, pane: NewPane)
    requires
        0 <= ws < before.workspaces@.len(),
        tab_of_pane(before.workspaces@[ws].tabs@, pane.pane) is None,
        after.workspaces@.len() == before.workspaces@.len(),
        after.workspaces@[ws].tabs@.len() == before.workspaces@[ws].tabs@.len() + 1,
        after.workspaces@[ws].tabs@ == before.workspaces@[ws].tabs@.push(
            after.workspaces@[ws].tabs@.last(),
        ),
        after.workspaces@[ws].tabs@.last().panes@.len() == 1,
        after.workspaces@[ws].tabs@.last().panes@[0].id == pane.pane,
        after.workspaces@[ws].tabs@.last().panes@[0].terminal_id == pane.terminal.id,
        after.terminals@ == before.terminals@.push(pane.terminal),
    ensures
        has_info(after, ws, pane.pane),
{
    broadcast use lemma_first_where;

    let tabs = after.workspaces@[ws].tabs@;
    let earlier = before.workspaces@[ws].tabs@;
    let n = earlier.len() as int;
    let panes = tabs[n].panes@;
    assert(tabs[n] == tabs.last());
    assert(pane_at(panes, pane.pane) is Some) by {
        assert(panes[0].id == pane.pane);
    }
    let p = pane_at(panes, pane.pane)->Some_0;
    assert(p == 0);
    assert(tab_of_pane(tabs, pane.pane) is Some) by {
        assert(pane_at(tabs[n].panes@, pane.pane) is Some);
    }
    let t = tab_of_pane(tabs, pane.pane)->Some_0;
    if t < n {
        assert(tabs[t] == earlier[t]);
        assert(pane_at(earlier[t].panes@, pane.pane) is Some);
    }
    assert(t == n);
    let terminals = after.terminals@;
    assert(terminals[before.terminals@.len() as int].id@ == pane.terminal.id@);
    assert(terminal_at(terminals, pane.terminal.id@) is Some);
}

/// The only tab of a workspace of a group is closed once that is confirmed, and not before.
pub proof fn law_a_tab_that_needs_confirmation_is_not_closed(
    session: Session,
    tab_id: Seq<char>,
    ws: int,
    tab: int,
)
    requires
        tab_in(session.workspaces@, tab_id) == Some((ws, tab)),
        session.workspaces@[ws].tabs@.len() <= 1,
    ensures
        close_refusal(session, tab_id, true) is Some,
        close_refusal(session, tab_id, false) is None,
{
}

} // verus!
