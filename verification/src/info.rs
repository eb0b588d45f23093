//! What is said of workspaces, tabs, panes and agents to whoever asks.

use vstd::prelude::*;
use vstd::string::*;
use crate::agents::{agent_panes, are_agent_infos, is_agent_info, AgentInfo};
use crate::build_info::{version, BuildInputs};
use crate::geometry::Rect;
use crate::metadata::{copy_tokens, Token};
use crate::response::{workspace_missing, workspace_not_found, ApiError};
use crate::session::{
    tab_of_pane, workspace_at, AgentState, Pane, ScrollMetrics, Session, SessionRefKind, StateLabel,
    Tab, Terminal, Workspace,
};
use crate::text::{clone_opt_text, decimal, decimal_text, join3, opt_view, same_text};

verus! {

/// How an agent is doing, as shown: done is idle and not looked at since.
#[derive(Clone, Copy, Debug, PartialEq, Eq, Structural)]
pub enum AgentStatus {
    Unknown,
    Idle,
    Working,
    Done,
    Blocked,
}

#[derive(Debug)]
pub struct TabInfo {
    pub tab_id: String,
    pub workspace_id: String,
    pub number: usize,
    pub label: String,
    pub focused: bool,
    pub pane_count: usize,
    pub agent_status: AgentStatus,
}

#[derive(Debug)]
pub struct WorktreeInfo {
    pub repo_key: String,
    pub repo_name: String,
    pub repo_root: String,
    pub checkout_path: String,
    pub is_linked_worktree: bool,
}

#[derive(Debug)]
pub struct WorkspaceInfo {
    pub workspace_id: String,
    pub number: usize,
    pub label: String,
    pub focused: bool,
    pub pane_count: usize,
    pub tab_count: usize,
    pub active_tab_id: String,
    pub agent_status: AgentStatus,
    pub tokens: Vec<Token>,
    pub worktree: Option<WorktreeInfo>,
}

#[derive(Debug)]
pub struct AgentSessionInfo {
    pub source: String,
    pub agent: String,
    pub kind: SessionRefKind,
    pub value: String,
}

#[derive(Debug)]
pub struct PaneInfo {
    pub pane_id: String,
    pub terminal_id: String,
    pub workspace_id: String,
    pub tab_id: String,
    pub focused: bool,
    pub cwd: Option<String>,
    pub foreground_cwd: Option<String>,
    pub label: Option<String>,
    pub agent: Option<String>,
    pub title: Option<String>,
    pub terminal_title: Option<String>,
    pub terminal_title_stripped: Option<String>,
    pub display_agent: Option<String>,
    pub agent_status: AgentStatus,
    pub state_labels: Vec<StateLabel>,
    pub tokens: Vec<Token>,
    pub agent_session: Option<AgentSessionInfo>,
    pub scroll: Option<ScrollMetrics>,
    pub revision: u64,
}

/// Who a receipt is from: an identity that a hook reported, never one read off the screen.
#[derive(Debug)]
pub struct AuthoritativeReceiver {
    pub pane_id: String,
    pub terminal_id: String,
    pub agent_label: String,
    pub agent_session: Option<AgentSessionInfo>,
}

#[derive(Debug)]
pub struct CreatedWorkspace {
    pub workspace: WorkspaceInfo,
    pub tab: TabInfo,
    pub root_pane: PaneInfo,
}

#[derive(Debug)]
pub struct CreatedTab {
    pub tab: TabInfo,
    pub root_pane: PaneInfo,
}

/// Where a pane is drawn.
#[derive(Debug)]
pub struct PlacedPane {
    pub pane_id: String,
    pub rect: Rect,
}

/// How the panes of a tab are laid out.
#[derive(Debug)]
pub struct TabLayout {
    pub tab_id: String,
    pub focused_pane_id: String,
    pub panes: Vec<PlacedPane>,
}

/// All there is to say of a session at once.
#[derive(Debug)]
pub struct SessionSnapshot {
    pub version: String,
    pub protocol: u32,
    pub focused_workspace_id: Option<String>,
    pub focused_tab_id: Option<String>,
    pub focused_pane_id: Option<String>,
    pub workspaces: Vec<WorkspaceInfo>,
    pub tabs: Vec<TabInfo>,
    pub panes: Vec<PaneInfo>,
    pub layouts: Vec<TabLayout>,
    pub agents: Vec<AgentInfo>,
}

// ---------------------------------------------------------------------------------------------
// Status
// ---------------------------------------------------------------------------------------------

pub open spec fn status_of(state: AgentState, seen: bool) -> AgentStatus {
    match state {
        AgentState::Idle => if seen {
            AgentStatus::Idle
        } else {
            AgentStatus::Done
        },
        AgentState::Working => AgentStatus::Working,
        AgentState::Blocked => AgentStatus::Blocked,
        AgentState::Unknown => AgentStatus::Unknown,
    }
}

pub fn pane_agent_status(state: AgentState, seen: bool) -> (r: AgentStatus)
    ensures
        r == status_of(state, seen),
{
    match state {
        AgentState::Idle => if seen {
            AgentStatus::Idle
        } else {
            AgentStatus::Done
        },
        AgentState::Working => AgentStatus::Working,
        AgentState::Blocked => AgentStatus::Blocked,
        AgentState::Unknown => AgentStatus::Unknown,
    }
}

/// How much a status asks to be looked at.
pub open spec fn attention(status: AgentStatus) -> nat {
    match status {
        AgentStatus::Unknown => 0,
        AgentStatus::Idle => 1,
        AgentStatus::Working => 2,
        AgentStatus::Done => 3,
        AgentStatus::Blocked => 4,
    }
}

/// The one of two statuses that asks more to be looked at.
pub open spec fn more_urgent(a: AgentStatus, b: AgentStatus) -> AgentStatus {
    if attention(b) >= attention(a) {
        b
    } else {
        a
    }
}

fn attention_of(status: AgentStatus) -> (r: u8)
    ensures
        r == attention(status),
{
    match status {
        AgentStatus::Unknown => 0,
        AgentStatus::Idle => 1,
        AgentStatus::Working => 2,
        AgentStatus::Done => 3,
        AgentStatus::Blocked => 4,
    }
}

/// The status a pane adds to its tab's: none without a terminal.
pub open spec fn pane_status(terminals: Seq<Terminal>, pane: Pane) -> AgentStatus {
    match crate::session::terminal_at(terminals, pane.terminal_id@) {
        Some(t) => status_of(terminals[t].state, pane.seen),
        None => AgentStatus::Unknown,
    }
}

/// The most urgent status of some panes.
pub open spec fn panes_status(terminals: Seq<Terminal>, panes: Seq<Pane>) -> AgentStatus
    decreases panes.len(),
{
    if panes.len() == 0 {
        AgentStatus::Unknown
    } else {
        more_urgent(
            panes_status(terminals, panes.drop_last()),
            pane_status(terminals, panes.last()),
        )
    }
}

/// The most urgent status of the panes of some tabs.
pub open spec fn tabs_status(terminals: Seq<Terminal>, tabs: Seq<Tab>) -> AgentStatus
    decreases tabs.len(),
{
    if tabs.len() == 0 {
        AgentStatus::Unknown
    } else {
        more_urgent(
            tabs_status(terminals, tabs.drop_last()),
            panes_status(terminals, tabs.last().panes@),
        )
    }
}

/// A tab is shown with a status that one of its panes has, and none of them asks more to be looked
/// at.
pub proof fn law_tab_status_is_the_most_urgent(terminals: Seq<Terminal>, panes: Seq<Pane>)
    ensures
        forall|i: int|
            0 <= i < panes.len() ==> attention(pane_status(terminals, #[trigger] panes[i]))
                <= attention(panes_status(terminals, panes)),
        panes.len() > 0 ==> exists|i: int|
            0 <= i < panes.len() && pane_status(terminals, #[trigger] panes[i]) == panes_status(
                terminals,
                panes,
            ),
    decreases panes.len(),
{
    if panes.len() > 0 {
        let head = panes.drop_last();
        law_tab_status_is_the_most_urgent(terminals, head);
        assert(forall|i: int| 0 <= i < head.len() ==> head[i] == #[trigger] panes[i]);
        let last = panes.len() - 1;
        assert(panes[last] == panes.last());
        if panes_status(terminals, panes) != pane_status(terminals, panes.last()) {
            if head.len() > 0 {
                let i = choose|i: int|
                    0 <= i < head.len() && pane_status(terminals, #[trigger] head[i])
                        == panes_status(terminals, head);
                assert(pane_status(terminals, panes[i]) == panes_status(terminals, panes));
            }
        }
    }
}

fn urgent(a: AgentStatus, b: AgentStatus) -> (r: AgentStatus)
    ensures
        r == more_urgent(a, b),
{
    if attention_of(b) >= attention_of(a) {
        b
    } else {
        a
    }
}

// ---------------------------------------------------------------------------------------------
// Names
// ---------------------------------------------------------------------------------------------

/// The id that a tab goes by when only its number is known.
pub open spec fn tab_id_for_number(workspace_id: Seq<char>, number: nat) -> Seq<char> {
    workspace_id + ":t"@ + decimal(number)
}

pub fn public_tab_id_for_number(workspace_id: &str, number: usize) -> (r: String)
    ensures
        r@ == tab_id_for_number(workspace_id@, number as nat),
{
    join3(workspace_id, ":t", decimal_text(number as u64).as_str())
}

impl Workspace {
    pub open spec fn spec_display_name(&self) -> Seq<char> {
        match self.custom_name {
            Some(name) => name@,
            None => self.auto_label@,
        }
    }

    /// A tab is called by its name, or by its position counted from one.
    pub open spec fn spec_tab_name(&self, tab: int) -> Seq<char> {
        match self.tabs@[tab].custom_name {
            Some(name) => name@,
            None => decimal((tab + 1) as nat),
        }
    }

    /// The id of the active tab. Where there is no such tab, it is the id a tab of that number would
    /// go by.
    pub open spec fn spec_active_tab_id(&self) -> Seq<char> {
        if self.active_tab < self.tabs@.len() {
            self.tabs@[self.active_tab as int].public_id@
        } else {
            tab_id_for_number(self.id@, counted((self.active_tab + 1) as nat))
        }
    }

    pub fn active_tab_id(&self) -> (r: String)
        ensures
            r@ == self.spec_active_tab_id(),
    {
        if self.active_tab < self.tabs.len() {
            self.tabs[self.active_tab].public_id.clone()
        } else {
            public_tab_id_for_number(self.id.as_str(), self.active_tab.saturating_add(1))
        }
    }

    pub fn display_name(&self) -> (r: String)
        ensures
            r@ == self.spec_display_name(),
    {
        match &self.custom_name {
            Some(name) => name.clone(),
            None => self.auto_label.clone(),
        }
    }

    pub fn tab_display_name(&self, tab: usize) -> (r: Option<String>)
        ensures
            match r {
                Some(name) => tab < self.tabs@.len() && name@ == self.spec_tab_name(tab as int),
                None => tab >= self.tabs@.len(),
            },
    {
        if tab >= self.tabs.len() {
            return None;
        }
        match &self.tabs[tab].custom_name {
            Some(name) => Some(name.clone()),
            None => Some(decimal_text(tab as u64 + 1)),
        }
    }
}

// ---------------------------------------------------------------------------------------------
// Infos
// ---------------------------------------------------------------------------------------------

pub open spec fn is_active(session: Session, ws: int) -> bool {
    session.active matches Some(a) && a == ws
}

pub open spec fn is_tab_info(info: TabInfo, session: Session, ws: int, tab: int) -> bool {
    let w = session.workspaces@[ws];
    let t = w.tabs@[tab];
    &&& info.tab_id == t.public_id
    &&& info.workspace_id == w.id
    &&& info.number == tab + 1
    &&& info.label@ == w.spec_tab_name(tab)
    &&& info.focused == (is_active(session, ws) && w.active_tab == tab)
    &&& info.pane_count == t.panes@.len()
    &&& info.agent_status == panes_status(session.terminals@, t.panes@)
}

/// The number of panes of some tabs.
pub open spec fn pane_total(tabs: Seq<Tab>) -> nat
    decreases tabs.len(),
{
    if tabs.len() == 0 {
        0
    } else {
        pane_total(tabs.drop_last()) + tabs.last().panes@.len()
    }
}

/// A count, as far as the machine counts.
pub open spec fn counted(n: nat) -> nat {
    if n <= usize::MAX {
        n
    } else {
        usize::MAX as nat
    }
}

pub open spec fn is_workspace_info(info: WorkspaceInfo, session: Session, ws: int) -> bool {
    let w = session.workspaces@[ws];
    &&& info.workspace_id == w.id
    &&& info.number == ws + 1
    &&& info.label@ == w.spec_display_name()
    &&& info.focused == is_active(session, ws)
    &&& info.pane_count == counted(pane_total(w.tabs@))
    &&& info.tab_count == w.tabs@.len()
    &&& info.active_tab_id@ == w.spec_active_tab_id()
    &&& info.agent_status == tabs_status(session.terminals@, w.tabs@)
    &&& info.tokens@ == w.tokens.tokens@
    &&& match (w.worktree, info.worktree) {
        (Some(space), Some(told)) => {
            &&& told.repo_key == space.key
            &&& told.repo_name == space.label
            &&& told.repo_root == space.repo_root
            &&& told.checkout_path == space.checkout_path
            &&& told.is_linked_worktree == space.is_linked_worktree
        },
        (None, None) => true,
        _ => false,
    }
}

pub open spec fn are_workspace_infos(infos: Seq<WorkspaceInfo>, session: Session) -> bool {
    &&& infos.len() == session.workspaces@.len()
    &&& forall|i: int|
        0 <= i < infos.len() ==> is_workspace_info(#[trigger] infos[i], session, i)
}

pub open spec fn are_tab_infos(infos: Seq<TabInfo>, session: Session, ws: int) -> bool {
    &&& infos.len() == session.workspaces@[ws].tabs@.len()
    &&& forall|i: int| 0 <= i < infos.len() ==> is_tab_info(#[trigger] infos[i], session, ws, i)
}

/// The session a terminal's agent is in: what the hook in charge reports now, else what was
/// reported earlier and kept.
pub open spec fn is_session_of(info: Option<AgentSessionInfo>, terminal: Terminal) -> bool {
    match (terminal.hook_authority, terminal.persisted_session, info) {
        (Some(authority), _, Some(told)) if authority.session_ref is Some => {
            &&& told.source == authority.source
            &&& told.agent == authority.agent_label
            &&& told.kind == authority.session_ref->Some_0.kind
            &&& told.value == authority.session_ref->Some_0.value
        },
        (Some(authority), _, None) if authority.session_ref is Some => false,
        (_, Some(kept), Some(told)) => {
            &&& told.source == kept.source
            &&& told.agent == kept.agent
            &&& told.kind == kept.session_ref.kind
            &&& told.value == kept.session_ref.value
        },
        (_, None, None) => true,
        _ => false,
    }
}

impl Terminal {
    /// The directory of the process, or the last one known.
    pub open spec fn spec_cwd(&self) -> Option<String> {
        match self.runtime {
            Some(r) if r.cwd is Some => r.cwd,
            _ => self.cwd,
        }
    }

    pub open spec fn spec_foreground_cwd(&self) -> Option<String> {
        match self.runtime {
            Some(r) => r.foreground_cwd,
            None => None,
        }
    }

    /// The directory that new terminals follow: the foreground process's, else the terminal's.
    pub open spec fn spec_follow_cwd(&self) -> Option<String> {
        if self.spec_foreground_cwd() is Some {
            self.spec_foreground_cwd()
        } else {
            self.spec_cwd()
        }
    }

    pub fn current_cwd(&self) -> (r: Option<String>)
        ensures
            r == self.spec_cwd(),
    {
        match &self.runtime {
            Some(runtime) => if runtime.cwd.is_some() {
                clone_opt_text(&runtime.cwd)
            } else {
                clone_opt_text(&self.cwd)
            },
            None => clone_opt_text(&self.cwd),
        }
    }

    pub fn foreground_cwd(&self) -> (r: Option<String>)
        ensures
            r == self.spec_foreground_cwd(),
    {
        match &self.runtime {
            Some(runtime) => clone_opt_text(&runtime.foreground_cwd),
            None => None,
        }
    }

    pub fn follow_cwd(&self) -> (r: Option<String>)
        ensures
            r == self.spec_follow_cwd(),
    {
        let foreground = self.foreground_cwd();
        if foreground.is_some() {
            foreground
        } else {
            self.current_cwd()
        }
    }
}

/// Whether there is anything to say of a pane: it is in the workspace and shows a terminal.
pub open spec fn has_info(session: Session, ws: int, pane: u64) -> bool {
    session.spec_terminal_of(ws, pane) is Some
}

pub open spec fn is_pane_info(info: PaneInfo, session: Session, ws: int, pane: u64) -> bool {
    let w = session.workspaces@[ws];
    let p = w.spec_pane(pane)->Some_0;
    let terminal = session.spec_terminal_of(ws, pane)->Some_0;
    let tab = tab_of_pane(w.tabs@, pane)->Some_0;
    &&& info.pane_id == p.public_id
    &&& info.terminal_id == terminal.id
    &&& info.workspace_id == w.id
    &&& info.tab_id == w.tabs@[tab].public_id
    &&& info.focused == (is_active(session, ws) && w.active_tab == tab && w.spec_focused_pane()
        == Some(pane))
    &&& info.cwd == terminal.spec_cwd()
    &&& info.foreground_cwd == terminal.spec_foreground_cwd()
    &&& info.label == terminal.manual_label
    &&& info.agent == terminal.agent_label
    &&& info.title == terminal.presentation.title
    &&& info.terminal_title == terminal.raw_title
    &&& info.terminal_title_stripped == terminal.stripped_title
    &&& info.display_agent == terminal.presentation.display_agent
    &&& info.agent_status == status_of(terminal.state, p.seen)
    &&& info.state_labels@ == terminal.presentation.state_labels@
    &&& info.tokens@ == terminal.tokens.tokens@
    &&& is_session_of(info.agent_session, terminal)
    &&& info.scroll == match terminal.runtime {
        Some(r) => r.scroll,
        None => None,
    }
    &&& info.revision == terminal.revision
}

/// The panes of a tab of which there is something to say.
pub open spec fn told_panes(session: Session, ws: int, panes: Seq<Pane>) -> Seq<(int, u64)>
    decreases panes.len(),
{
    if panes.len() == 0 {
        Seq::empty()
    } else {
        let before = told_panes(session, ws, panes.drop_last());
        if has_info(session, ws, panes.last().id) {
            before.push((ws, panes.last().id))
        } else {
            before
        }
    }
}

/// The panes of some tabs of which there is something to say, tab by tab.
pub open spec fn told_tabs(session: Session, ws: int, tabs: Seq<Tab>) -> Seq<(int, u64)>
    decreases tabs.len(),
{
    if tabs.len() == 0 {
        Seq::empty()
    } else {
        told_tabs(session, ws, tabs.drop_last()) + told_panes(session, ws, tabs.last().panes@)
    }
}

/// The panes of the first `n` workspaces of which there is something to say.
pub open spec fn told_workspaces(session: Session, n: int) -> Seq<(int, u64)>
    decreases n,
{
    if n <= 0 {
        Seq::empty()
    } else {
        told_workspaces(session, n - 1) + told_tabs(
            session,
            n - 1,
            session.workspaces@[n - 1].tabs@,
        )
    }
}

pub open spec fn are_pane_infos(infos: Seq<PaneInfo>, session: Session, told: Seq<(int, u64)>) -> bool {
    &&& infos.len() == told.len()
    &&& forall|i: int|
        0 <= i < infos.len() ==> is_pane_info(#[trigger] infos[i], session, told[i].0, told[i].1)
}

/// The number of tabs of the first `n` workspaces.
pub open spec fn tabs_before(session: Session, n: int) -> int
    decreases n,
{
    if n <= 0 {
        0
    } else {
        tabs_before(session, n - 1) + session.workspaces@[n - 1].tabs@.len()
    }
}

/// Tab `t` of workspace `w` has its info in its place among those of all workspaces.
pub open spec fn tab_told(infos: Seq<TabInfo>, session: Session, w: int, t: int) -> bool {
    &&& 0 <= tabs_before(session, w) + t < infos.len()
    &&& is_tab_info(infos[tabs_before(session, w) + t], session, w, t)
}

/// The infos of the tabs of the first `n` workspaces, workspace by workspace.
pub open spec fn all_tabs_told(infos: Seq<TabInfo>, session: Session, n: int) -> bool {
    &&& infos.len() == tabs_before(session, n)
    &&& forall|w: int, t: int|
        0 <= w < n && 0 <= t < session.workspaces@[w].tabs@.len() ==> #[trigger] tab_told(
            infos,
            session,
            w,
            t,
        )
}

/// The same labels.
pub fn copy_labels(labels: &Vec<StateLabel>) -> (r: Vec<StateLabel>)
    ensures
        r@ == labels@,
{
    let mut r: Vec<StateLabel> = Vec::new();
    let mut i: usize = 0;
    while i < labels.len()
        invariant
            i <= labels@.len(),
            r@ == labels@.take(i as int),
        decreases labels@.len() - i,
    {
        let l = &labels[i];
        r.push(StateLabel { state: l.state.clone(), label: l.label.clone() });
        i = i + 1;
        proof {
            assert(labels@.take(i as int) =~= labels@.take(i - 1).push(labels@[i - 1]));
        }
    }
    proof {
        assert(labels@.take(i as int) =~= labels@);
    }
    r
}

/// The session that a terminal's agent is in.
pub fn terminal_agent_session_info(terminal: &Terminal) -> (r: Option<AgentSessionInfo>)
    ensures
        is_session_of(r, *terminal),
{
    match &terminal.hook_authority {
        Some(authority) => match &authority.session_ref {
            Some(session_ref) => {
                return Some(
                    AgentSessionInfo {
                        source: authority.source.clone(),
                        agent: authority.agent_label.clone(),
                        kind: session_ref.kind,
                        value: session_ref.value.clone(),
                    },
                );
            },
            None => {},
        },
        None => {},
    }
    match &terminal.persisted_session {
        Some(session) => Some(
            AgentSessionInfo {
                source: session.source.clone(),
                agent: session.agent.clone(),
                kind: session.session_ref.kind,
                value: session.session_ref.value.clone(),
            },
        ),
        None => None,
    }
}

/// Who a receipt for a pane is from. An identity counts only where a hook reported it and it is
/// confirmed, and no exit waits to be handled; a kept session counts only where the same agent
/// reported it.
pub open spec fn receiver_of(session: Session, pane_id: Seq<char>) -> Option<Terminal> {
    match session.spec_parse_pane_id(pane_id) {
        Some((ws, pane)) => match session.spec_terminal_of(ws, pane) {
            Some(terminal) => if terminal.runtime matches Some(r) && r.exit_pending {
                None
            } else if terminal.confirmed_hook_label is None {
                None
            } else {
                Some(terminal)
            },
            None => None,
        },
        None => None,
    }
}

pub open spec fn is_receiver(r: AuthoritativeReceiver, session: Session, pane_id: Seq<char>) -> bool {
    let (ws, pane) = session.spec_parse_pane_id(pane_id)->Some_0;
    let terminal = receiver_of(session, pane_id)->Some_0;
    let label = terminal.confirmed_hook_label->Some_0;
    &&& receiver_of(session, pane_id) is Some
    &&& r.pane_id == session.workspaces@[ws].spec_pane(pane)->Some_0.public_id
    &&& r.terminal_id == terminal.id
    &&& r.agent_label == label
    &&& exists|info: Option<AgentSessionInfo>| #[trigger]
        is_session_of(info, terminal) && r.agent_session == match info {
            Some(told) => if told.agent@ == label@ {
                Some(told)
            } else {
                None
            },
            None => None,
        }
}

/// The infos of the panes of a workspace, or of all.
pub open spec fn are_panes_asked_for(
    session: Session,
    workspace_id: Option<Seq<char>>,
    r: Result<Vec<PaneInfo>, ApiError>,
) -> bool {
    match (workspace_id, r) {
        (None, Ok(infos)) => are_pane_infos(
            infos@,
            session,
            told_workspaces(session, session.workspaces@.len() as int),
        ),
        (Some(id), Ok(infos)) => workspace_at(session.workspaces@, id) matches Some(ws)
            && are_pane_infos(
            infos@,
            session,
            told_tabs(session, ws, session.workspaces@[ws].tabs@),
        ),
        (Some(id), Err(e)) => workspace_at(session.workspaces@, id) is None && e@
            == workspace_missing(id),
        (None, Err(_)) => false,
    }
}

impl Session {
    fn status_of_panes(&self, panes: &Vec<Pane>) -> (r: AgentStatus)
        ensures
            r == panes_status(self.terminals@, panes@),
    {
        let mut status = AgentStatus::Unknown;
        let mut i: usize = 0;
        while i < panes.len()
            invariant
                i <= panes@.len(),
                status == panes_status(self.terminals@, panes@.take(i as int)),
            decreases panes@.len() - i,
        {
            proof {
                assert(panes@.take(i + 1).drop_last() =~= panes@.take(i as int));
            }
            let pane = &panes[i];
            let own = match self.find_terminal(pane.terminal_id.as_str()) {
                Some(t) => pane_agent_status(self.terminals[t].state, pane.seen),
                None => AgentStatus::Unknown,
            };
            status = urgent(status, own);
            i = i + 1;
        }
        proof {
            assert(panes@.take(i as int) =~= panes@);
        }
        status
    }

    fn status_of_tabs(&self, tabs: &Vec<Tab>) -> (r: AgentStatus)
        ensures
            r == tabs_status(self.terminals@, tabs@),
    {
        let mut status = AgentStatus::Unknown;
        let mut i: usize = 0;
        while i < tabs.len()
            invariant
                i <= tabs@.len(),
                status == tabs_status(self.terminals@, tabs@.take(i as int)),
            decreases tabs@.len() - i,
        {
            proof {
                assert(tabs@.take(i + 1).drop_last() =~= tabs@.take(i as int));
            }
            let own = self.status_of_panes(&tabs[i].panes);
            status = urgent(status, own);
            i = i + 1;
        }
        proof {
            assert(tabs@.take(i as int) =~= tabs@);
        }
        status
    }

    /// What there is to say of a tab.
    pub fn tab_info(&self, ws: usize, tab: usize) -> (r: Option<TabInfo>)
        ensures
            match r {
                Some(info) => ws < self.workspaces@.len() && tab
                    < self.workspaces@[ws as int].tabs@.len() && is_tab_info(
                    info,
                    *self,
                    ws as int,
                    tab as int,
                ),
                None => ws >= self.workspaces@.len() || tab
                    >= self.workspaces@[ws as int].tabs@.len(),
            },
    {
        if ws >= self.workspaces.len() {
            return None;
        }
        let workspace = &self.workspaces[ws];
        let label = match workspace.tab_display_name(tab) {
            Some(label) => label,
            None => {
                return None;
            },
        };
        let count: usize = workspace.tabs.len();
        assert(tab < count);
        let t = &workspace.tabs[tab];
        let focused = match self.active {
            Some(active) => active == ws && workspace.active_tab == tab,
            None => false,
        };
        Some(
            TabInfo {
                tab_id: t.public_id.clone(),
                workspace_id: workspace.id.clone(),
                number: tab + 1,
                label,
                focused,
                pane_count: t.panes.len(),
                agent_status: self.status_of_panes(&t.panes),
            },
        )
    }

    /// What there is to say of a workspace's tabs.
    pub fn tab_list_info(&self, ws: usize) -> (r: Vec<TabInfo>)
        requires
            ws < self.workspaces@.len(),
        ensures
            are_tab_infos(r@, *self, ws as int),
    {
        let mut infos: Vec<TabInfo> = Vec::new();
        let mut i: usize = 0;
        while i < self.workspaces[ws].tabs.len()
            invariant
                ws < self.workspaces@.len(),
                i <= self.workspaces@[ws as int].tabs@.len(),
                infos@.len() == i,
                forall|j: int|
                    0 <= j < i ==> is_tab_info(#[trigger] infos@[j], *self, ws as int, j),
            decreases self.workspaces@[ws as int].tabs@.len() - i,
        {
            match self.tab_info(ws, i) {
                Some(info) => {
                    infos.push(info);
                },
                None => {},
            }
            i = i + 1;
        }
        infos
    }

    /// What there is to say of all tabs.
    pub fn all_tab_infos(&self) -> (r: Vec<TabInfo>)
        ensures
            all_tabs_told(r@, *self, self.workspaces@.len() as int),
    {
        let mut infos: Vec<TabInfo> = Vec::new();
        let mut w: usize = 0;
        while w < self.workspaces.len()
            invariant
                w <= self.workspaces@.len(),
                all_tabs_told(infos@, *self, w as int),
            decreases self.workspaces@.len() - w,
        {
            let ghost before = infos@;
            let mut own = self.tab_list_info(w);
            let ghost told = own@;
            infos.append(&mut own);
            proof {
                assert(infos@ =~= before + told);
                assert forall|x: int, t: int|
                    0 <= x < w + 1 && 0 <= t < self.workspaces@[x].tabs@.len() implies #[trigger] tab_told(
                    infos@,
                    *self,
                    x,
                    t,
                ) by {
                    if x < w {
                        assert(tab_told(before, *self, x, t));
                    } else {
                        assert(infos@[before.len() + t] == told[t]);
                    }
                }
            }
            w = w + 1;
        }
        infos
    }

    /// What there is to say of a workspace.
    pub fn workspace_info(&self, ws: usize) -> (r: WorkspaceInfo)
        requires
            ws < self.workspaces@.len(),
        ensures
            is_workspace_info(r, *self, ws as int),
    {
        let count: usize = self.workspaces.len();
        assert(ws < count);
        let w = &self.workspaces[ws];
        let mut pane_count: usize = 0;
        let mut i: usize = 0;
        while i < w.tabs.len()
            invariant
                i <= w.tabs@.len(),
                pane_count == counted(pane_total(w.tabs@.take(i as int))),
            decreases w.tabs@.len() - i,
        {
            proof {
                assert(w.tabs@.take(i + 1).drop_last() =~= w.tabs@.take(i as int));
            }
            pane_count = pane_count.saturating_add(w.tabs[i].panes.len());
            i = i + 1;
        }
        proof {
            assert(w.tabs@.take(i as int) =~= w.tabs@);
        }
        let focused = match self.active {
            Some(active) => active == ws,
            None => false,
        };
        WorkspaceInfo {
            workspace_id: w.id.clone(),
            number: ws + 1,
            label: w.display_name(),
            focused,
            pane_count,
            tab_count: w.tabs.len(),
            active_tab_id: w.active_tab_id(),
            agent_status: self.status_of_tabs(&w.tabs),
            tokens: copy_tokens(&w.tokens.tokens),
            worktree: match &w.worktree {
                Some(space) => Some(
                    WorktreeInfo {
                        repo_key: space.key.clone(),
                        repo_name: space.label.clone(),
                        repo_root: space.repo_root.clone(),
                        checkout_path: space.checkout_path.clone(),
                        is_linked_worktree: space.is_linked_worktree,
                    },
                ),
                None => None,
            },
        }
    }

    /// What there is to say of all workspaces.
    pub fn workspace_list_info(&self) -> (r: Vec<WorkspaceInfo>)
        ensures
            are_workspace_infos(r@, *self),
    {
        let mut infos: Vec<WorkspaceInfo> = Vec::new();
        let mut i: usize = 0;
        while i < self.workspaces.len()
            invariant
                i <= self.workspaces@.len(),
                infos@.len() == i,
                forall|j: int| 0 <= j < i ==> is_workspace_info(#[trigger] infos@[j], *self, j),
            decreases self.workspaces@.len() - i,
        {
            infos.push(self.workspace_info(i));
            i = i + 1;
        }
        infos
    }

    /// What there is to say of a pane.
    pub fn pane_info(&self, ws: usize, pane: u64) -> (r: Option<PaneInfo>)
        ensures
            match r {
                Some(info) => has_info(*self, ws as int, pane) && is_pane_info(
                    info,
                    *self,
                    ws as int,
                    pane,
                ),
                None => !has_info(*self, ws as int, pane),
            },
    {
        let terminal = match self.terminal_of(ws, pane) {
            Some(terminal) => terminal,
            None => {
                return None;
            },
        };
        let w = &self.workspaces[ws];
        let p = match w.pane_state(pane) {
            Some(p) => p,
            None => {
                return None;
            },
        };
        let tab: usize = match w.find_tab_index_for_pane(pane) {
            Some(tab) => tab,
            None => {
                return None;
            },
        };
        let active = match self.active {
            Some(active) => active == ws,
            None => false,
        };
        let holds_focus = match w.focused_pane_id() {
            Some(focused) => focused == pane,
            None => false,
        };
        Some(
            PaneInfo {
                pane_id: p.public_id.clone(),
                terminal_id: terminal.id.clone(),
                workspace_id: w.id.clone(),
                tab_id: w.tabs[tab].public_id.clone(),
                focused: active && w.active_tab == tab && holds_focus,
                cwd: terminal.current_cwd(),
                foreground_cwd: terminal.foreground_cwd(),
                label: clone_opt_text(&terminal.manual_label),
                agent: clone_opt_text(&terminal.agent_label),
                title: clone_opt_text(&terminal.presentation.title),
                terminal_title: clone_opt_text(&terminal.raw_title),
                terminal_title_stripped: clone_opt_text(&terminal.stripped_title),
                display_agent: clone_opt_text(&terminal.presentation.display_agent),
                agent_status: pane_agent_status(terminal.state, p.seen),
                state_labels: copy_labels(&terminal.presentation.state_labels),
                tokens: copy_tokens(&terminal.tokens.tokens),
                agent_session: terminal_agent_session_info(terminal),
                scroll: match &terminal.runtime {
                    Some(runtime) => runtime.scroll,
                    None => None,
                },
                revision: terminal.revision,
            },
        )
    }

    /// What there is to say of the pane a tab started with.
    pub fn root_pane_info(&self, ws: usize, tab: usize) -> (r: Option<PaneInfo>)
        ensures
            match r {
                Some(info) => {
                    &&& ws < self.workspaces@.len()
                    &&& tab < self.workspaces@[ws as int].tabs@.len()
                    &&& has_info(
                        *self,
                        ws as int,
                        self.workspaces@[ws as int].tabs@[tab as int].root_pane,
                    )
                    &&& is_pane_info(
                        info,
                        *self,
                        ws as int,
                        self.workspaces@[ws as int].tabs@[tab as int].root_pane,
                    )
                },
                None => ws >= self.workspaces@.len() || tab
                    >= self.workspaces@[ws as int].tabs@.len() || !has_info(
                    *self,
                    ws as int,
                    self.workspaces@[ws as int].tabs@[tab as int].root_pane,
                ),
            },
    {
        if ws >= self.workspaces.len() || tab >= self.workspaces[ws].tabs.len() {
            return None;
        }
        self.pane_info(ws, self.workspaces[ws].tabs[tab].root_pane)
    }

    /// What a created tab is answered with.
    pub fn tab_created_result(&self, ws: usize, tab: usize) -> (r: Option<CreatedTab>)
        ensures
            match r {
                Some(created) => {
                    &&& ws < self.workspaces@.len()
                    &&& tab < self.workspaces@[ws as int].tabs@.len()
                    &&& is_tab_info(created.tab, *self, ws as int, tab as int)
                    &&& is_pane_info(
                        created.root_pane,
                        *self,
                        ws as int,
                        self.workspaces@[ws as int].tabs@[tab as int].root_pane,
                    )
                },
                None => ws >= self.workspaces@.len() || tab
                    >= self.workspaces@[ws as int].tabs@.len() || !has_info(
                    *self,
                    ws as int,
                    self.workspaces@[ws as int].tabs@[tab as int].root_pane,
                ),
            },
    {
        match (self.tab_info(ws, tab), self.root_pane_info(ws, tab)) {
            (Some(tab), Some(root_pane)) => Some(CreatedTab { tab, root_pane }),
            _ => None,
        }
    }

    /// What a created workspace is answered with.
    pub fn workspace_created_result(&self, ws: usize) -> (r: Option<CreatedWorkspace>)
        requires
            ws < self.workspaces@.len(),
        ensures
            match r {
                Some(created) => {
                    &&& self.workspaces@[ws as int].tabs@.len() > 0
                    &&& is_workspace_info(created.workspace, *self, ws as int)
                    &&& is_tab_info(created.tab, *self, ws as int, 0)
                    &&& is_pane_info(
                        created.root_pane,
                        *self,
                        ws as int,
                        self.workspaces@[ws as int].tabs@[0].root_pane,
                    )
                },
                None => self.workspaces@[ws as int].tabs@.len() == 0 || !has_info(
                    *self,
                    ws as int,
                    self.workspaces@[ws as int].tabs@[0].root_pane,
                ),
            },
    {
        match (self.tab_info(ws, 0), self.root_pane_info(ws, 0)) {
            (Some(tab), Some(root_pane)) => Some(
                CreatedWorkspace { workspace: self.workspace_info(ws), tab, root_pane },
            ),
            _ => None,
        }
    }

    fn collect_panes_of_tab(&self, ws: usize, panes: &Vec<Pane>, infos: &mut Vec<PaneInfo>, Ghost(
        told,
    ): Ghost<Seq<(int, u64)>>)
        requires
            are_pane_infos(old(infos)@, *self, told),
        ensures
            are_pane_infos(final(infos)@, *self, told + told_panes(*self, ws as int, panes@)),
    {
        let mut i: usize = 0;
        proof {
            assert(told + told_panes(*self, ws as int, panes@.take(0)) =~= told);
        }
        while i < panes.len()
            invariant
                i <= panes@.len(),
                are_pane_infos(
                    infos@,
                    *self,
                    told + told_panes(*self, ws as int, panes@.take(i as int)),
                ),
            decreases panes@.len() - i,
        {
            let ghost so_far = told + told_panes(*self, ws as int, panes@.take(i as int));
            proof {
                assert(panes@.take(i + 1).drop_last() =~= panes@.take(i as int));
                assert(panes@.take(i + 1).last() == panes@[i as int]);
            }
            match self.pane_info(ws, panes[i].id) {
                Some(info) => {
                    infos.push(info);
                    proof {
                        assert(told + told_panes(*self, ws as int, panes@.take(i + 1))
                            =~= so_far.push((ws as int, panes@[i as int].id)));
                    }
                },
                None => {},
            }
            i = i + 1;
        }
        proof {
            assert(panes@.take(i as int) =~= panes@);
        }
    }

    fn collect_panes_of_workspace(&self, ws: usize, infos: &mut Vec<PaneInfo>, Ghost(told): Ghost<
        Seq<(int, u64)>,
    >)
        requires
            ws < self.workspaces@.len(),
            are_pane_infos(old(infos)@, *self, told),
        ensures
            are_pane_infos(
                final(infos)@,
                *self,
                told + told_tabs(*self, ws as int, self.workspaces@[ws as int].tabs@),
            ),
    {
        let tabs = &self.workspaces[ws].tabs;
        let mut i: usize = 0;
        proof {
            assert(told + told_tabs(*self, ws as int, tabs@.take(0)) =~= told);
        }
        while i < tabs.len()
            invariant
                i <= tabs@.len(),
                are_pane_infos(
                    infos@,
                    *self,
                    told + told_tabs(*self, ws as int, tabs@.take(i as int)),
                ),
            decreases tabs@.len() - i,
        {
            let ghost so_far = told + told_tabs(*self, ws as int, tabs@.take(i as int));
            self.collect_panes_of_tab(ws, &tabs[i].panes, infos, Ghost(so_far));
            proof {
                assert(tabs@.take(i + 1).drop_last() =~= tabs@.take(i as int));
                assert(tabs@.take(i + 1).last() == tabs@[i as int]);
                assert(told + told_tabs(*self, ws as int, tabs@.take(i + 1)) =~= so_far
                    + told_panes(*self, ws as int, tabs@[i as int].panes@));
            }
            i = i + 1;
        }
        proof {
            assert(tabs@.take(i as int) =~= tabs@);
        }
    }

    /// What there is to say of the panes of one workspace, or of all.
    pub fn collect_panes_for_workspace(&self, workspace_id: &Option<String>) -> (r: Result<
        Vec<PaneInfo>,
        ApiError,
    >)
        ensures
            are_panes_asked_for(*self, opt_view(*workspace_id), r),
    {
        let mut infos: Vec<PaneInfo> = Vec::new();
        match workspace_id {
            Some(id) => match self.parse_workspace_id(id.as_str()) {
                Some(ws) => {
                    self.collect_panes_of_workspace(
                        ws,
                        &mut infos,
                        Ghost(Seq::<(int, u64)>::empty()),
                    );
                    proof {
                        let told = told_tabs(*self, ws as int, self.workspaces@[ws as int].tabs@);
                        assert(Seq::<(int, u64)>::empty() + told =~= told);
                    }
                    Ok(infos)
                },
                None => Err(workspace_not_found(id.as_str())),
            },
            None => {
                let mut w: usize = 0;
                while w < self.workspaces.len()
                    invariant
                        w <= self.workspaces@.len(),
                        are_pane_infos(infos@, *self, told_workspaces(*self, w as int)),
                    decreases self.workspaces@.len() - w,
                {
                    self.collect_panes_of_workspace(
                        w,
                        &mut infos,
                        Ghost(told_workspaces(*self, w as int)),
                    );
                    w = w + 1;
                }
                Ok(infos)
            },
        }
    }

    /// Who a receipt for a pane is from.
    pub fn authoritative_receiver_identity(&self, public_pane_id: &str) -> (r: Option<
        AuthoritativeReceiver,
    >)
        ensures
            match r {
                Some(receiver) => is_receiver(receiver, *self, public_pane_id@),
                None => receiver_of(*self, public_pane_id@) is None,
            },
    {
        let (ws, pane): (usize, u64) = match self.parse_pane_id(public_pane_id) {
            Some(found) => found,
            None => {
                return None;
            },
        };
        let terminal = match self.terminal_of(ws, pane) {
            Some(terminal) => terminal,
            None => {
                return None;
            },
        };
        let p = match self.workspaces[ws].pane_state(pane) {
            Some(p) => p,
            None => {
                return None;
            },
        };
        match &terminal.runtime {
            Some(runtime) => {
                if runtime.exit_pending {
                    return None;
                }
            },
            None => {},
        }
        let label = match &terminal.confirmed_hook_label {
            Some(label) => label,
            None => {
                return None;
            },
        };
        let told = terminal_agent_session_info(terminal);
        let ghost info = told;
        let agent_session = match told {
            Some(told) => if same_text(told.agent.as_str(), label.as_str()) {
                Some(told)
            } else {
                None
            },
            None => None,
        };
        let receiver = AuthoritativeReceiver {
            pane_id: p.public_id.clone(),
            terminal_id: terminal.id.clone(),
            agent_label: label.clone(),
            agent_session,
        };
        proof {
            assert(is_session_of(info, *terminal));
            assert(is_receiver(receiver, *self, public_pane_id@));
        }
        Some(receiver)
    }

    /// All there is to say of the session. `layouts` are the layouts of its tabs, tab by tab,
    /// workspace by workspace; a tab may have none.
    pub fn session_snapshot(
        &self,
        build: &BuildInputs,
        protocol: u32,
        layouts: Vec<Option<TabLayout>>,
    ) -> (r: SessionSnapshot)
        requires
            layouts@.len() == tabs_before(*self, self.workspaces@.len() as int),
        ensures
            is_snapshot(r, *self, *build, protocol, layouts@),
    {
        let mut focused_workspace_id: Option<String> = None;
        let mut focused_tab_id: Option<String> = None;
        let mut focused_pane_id: Option<String> = None;
        match self.active {
            Some(active) => {
                if active < self.workspaces.len() {
                    let w = &self.workspaces[active];
                    focused_workspace_id = Some(w.id.clone());
                    if w.active_tab < w.tabs.len() {
                        focused_tab_id = Some(w.tabs[w.active_tab].public_id.clone());
                    }
                    match w.focused_pane_id() {
                        Some(pane) => match w.pane_state(pane) {
                            Some(p) => {
                                focused_pane_id = Some(p.public_id.clone());
                            },
                            None => {},
                        },
                        None => {},
                    }
                }
            },
            None => {},
        }
        let panes = match self.collect_panes_for_workspace(&None) {
            Ok(panes) => panes,
            Err(_) => Vec::new(),
        };
        SessionSnapshot {
            version: version(build),
            protocol,
            focused_workspace_id,
            focused_tab_id,
            focused_pane_id,
            workspaces: self.workspace_list_info(),
            tabs: self.all_tab_infos(),
            panes,
            layouts: keep_present(layouts),
            agents: self.collect_agent_infos(),
        }
    }
}

/// Those of the values that are there, in order.
pub open spec fn present<A>(values: Seq<Option<A>>) -> Seq<A>
    decreases values.len(),
{
    if values.len() == 0 {
        Seq::empty()
    } else {
        match values.last() {
            Some(value) => present(values.drop_last()).push(value),
            None => present(values.drop_last()),
        }
    }
}

fn keep_present<A>(mut values: Vec<Option<A>>) -> (r: Vec<A>)
    ensures
        r@ == present(values@),
{
    let ghost all = values@;
    let mut kept: Vec<A> = Vec::new();
    let mut i: usize = 0;
    while i < values.len()
        invariant
            i <= values@.len(),
            values@.len() == all.len(),
            forall|j: int| i <= j < all.len() ==> #[trigger] values@[j] == all[j],
            kept@ == present(all.take(i as int)),
        decreases values@.len() - i,
    {
        proof {
            assert(all.take(i + 1).drop_last() =~= all.take(i as int));
            assert(all.take(i + 1).last() == values@[i as int]);
        }
        match values[i].take() {
            Some(value) => kept.push(value),
            None => {},
        }
        i = i + 1;
    }
    proof {
        assert(all.take(i as int) =~= all);
    }
    kept
}

/// `r` is all there is to say of a session: every workspace, every tab, active or not, every pane
/// and every agent, in order, and the layouts that are there. Nothing has the focus where the
/// active workspace is not there.
pub open spec fn is_snapshot(
    r: SessionSnapshot,
    session: Session,
    build: BuildInputs,
    protocol: u32,
    layouts: Seq<Option<TabLayout>>,
) -> bool {
    &&& r.version@ == build.spec_version()
    &&& r.protocol == protocol
    &&& match session.active {
        Some(a) if a < session.workspaces@.len() => {
            let w = session.workspaces@[a as int];
            &&& r.focused_workspace_id == Some(w.id)
            &&& r.focused_tab_id == if w.active_tab < w.tabs@.len() {
                Some(w.tabs@[w.active_tab as int].public_id)
            } else {
                None
            }
            &&& r.focused_pane_id == match w.spec_focused_pane() {
                Some(pane) => match w.spec_pane(pane) {
                    Some(p) => Some(p.public_id),
                    None => None,
                },
                None => None,
            }
        },
        _ => r.focused_workspace_id is None && r.focused_tab_id is None && r.focused_pane_id is None,
    }
    &&& are_workspace_infos(r.workspaces@, session)
    &&& all_tabs_told(r.tabs@, session, session.workspaces@.len() as int)
    &&& are_pane_infos(
        r.panes@,
        session,
        told_workspaces(session, session.workspaces@.len() as int),
    )
    &&& r.layouts@ == present(layouts)
    &&& are_agent_infos(r.agents@, session, agent_panes(session))
}

/// Two infos say the same.
pub open spec fn same_workspace_info(a: WorkspaceInfo, b: WorkspaceInfo) -> bool {
    &&& a.workspace_id == b.workspace_id
    &&& a.number == b.number
    &&& a.label@ == b.label@
    &&& a.focused == b.focused
    &&& a.pane_count == b.pane_count
    &&& a.tab_count == b.tab_count
    &&& a.active_tab_id@ == b.active_tab_id@
    &&& a.agent_status == b.agent_status
    &&& a.tokens@ == b.tokens@
    &&& a.worktree == b.worktree
}

/// Two infos say the same.
pub open spec fn same_tab_info(a: TabInfo, b: TabInfo) -> bool {
    &&& a.tab_id == b.tab_id
    &&& a.workspace_id == b.workspace_id
    &&& a.number == b.number
    &&& a.label@ == b.label@
    &&& a.focused == b.focused
    &&& a.pane_count == b.pane_count
    &&& a.agent_status == b.agent_status
}

/// Two infos say the same.
pub open spec fn same_pane_info(a: PaneInfo, b: PaneInfo) -> bool {
    &&& a == (PaneInfo { state_labels: a.state_labels, tokens: a.tokens, ..b })
    &&& a.state_labels@ == b.state_labels@
    &&& a.tokens@ == b.tokens@
}

/// Two snapshots say the same.
pub open spec fn same_snapshot(a: SessionSnapshot, b: SessionSnapshot) -> bool {
    &&& a.version@ == b.version@
    &&& a.protocol == b.protocol
    &&& a.focused_workspace_id == b.focused_workspace_id
    &&& a.focused_tab_id == b.focused_tab_id
    &&& a.focused_pane_id == b.focused_pane_id
    &&& a.workspaces@.len() == b.workspaces@.len()
    &&& forall|i: int|
        0 <= i < a.workspaces@.len() ==> same_workspace_info(
            #[trigger] a.workspaces@[i],
            b.workspaces@[i],
        )
    &&& a.tabs@.len() == b.tabs@.len()
    &&& forall|i: int|
        0 <= i < a.tabs@.len() ==> same_tab_info(#[trigger] a.tabs@[i], b.tabs@[i])
    &&& a.panes@.len() == b.panes@.len()
    &&& forall|i: int|
        0 <= i < a.panes@.len() ==> same_pane_info(#[trigger] a.panes@[i], b.panes@[i])
    &&& a.layouts@ == b.layouts@
    &&& a.agents@.len() == b.agents@.len()
    &&& forall|i: int|
        0 <= i < a.agents@.len() ==> (#[trigger] a.agents@[i]).name == b.agents@[i].name
            && same_pane_info(a.agents@[i].pane, b.agents@[i].pane)
}

/// Every position among the tabs of the first `n` workspaces is that of a tab of one of them.
proof fn lemma_tab_of_position(session: Session, n: int, i: int) -> (at: (int, int))
    requires
        0 <= n <= session.workspaces@.len(),
        0 <= i < tabs_before(session, n),
    ensures
        0 <= at.0 < n,
        0 <= at.1 < session.workspaces@[at.0].tabs@.len(),
        tabs_before(session, at.0) + at.1 == i,
    decreases n,
{
    if i < tabs_before(session, n - 1) {
        lemma_tab_of_position(session, n - 1, i)
    } else {
        (n - 1, i - tabs_before(session, n - 1))
    }
}

/// Two snapshots of one session say the same.
pub proof fn law_snapshots_of_one_session_agree(
    a: SessionSnapshot,
    b: SessionSnapshot,
    session: Session,
    build: BuildInputs,
    protocol: u32,
    layouts: Seq<Option<TabLayout>>,
)
    requires
        is_snapshot(a, session, build, protocol, layouts),
        is_snapshot(b, session, build, protocol, layouts),
    ensures
        same_snapshot(a, b),
{
    let n = session.workspaces@.len() as int;
    assert forall|i: int| 0 <= i < a.workspaces@.len() implies same_workspace_info(
        #[trigger] a.workspaces@[i],
        b.workspaces@[i],
    ) by {
        assert(is_workspace_info(a.workspaces@[i], session, i));
        assert(is_workspace_info(b.workspaces@[i], session, i));
    }
    assert forall|i: int| 0 <= i < a.tabs@.len() implies same_tab_info(
        #[trigger] a.tabs@[i],
        b.tabs@[i],
    ) by {
        let (w, t) = lemma_tab_of_position(session, n, i);
        assert(tab_told(a.tabs@, session, w, t));
        assert(tab_told(b.tabs@, session, w, t));
    }
    let told = told_workspaces(session, n);
    assert forall|i: int| 0 <= i < a.panes@.len() implies same_pane_info(
        #[trigger] a.panes@[i],
        b.panes@[i],
    ) by {
        assert(is_pane_info(a.panes@[i], session, told[i].0, told[i].1));
        assert(is_pane_info(b.panes@[i], session, told[i].0, told[i].1));
    }
    let agents = agent_panes(session);
    assert forall|i: int| 0 <= i < a.agents@.len() implies (#[trigger] a.agents@[i]).name
        == b.agents@[i].name && same_pane_info(a.agents@[i].pane, b.agents@[i].pane) by {
        assert(is_agent_info(a.agents@[i], session, agents[i]));
        assert(is_agent_info(b.agents@[i], session, agents[i]));
    }
}

/// What is said of a session depends on its workspaces, its terminals and which workspace is
/// active.
pub open spec fn tells_alike(a: Session, b: Session) -> bool {
    a.workspaces@ == b.workspaces@ && a.terminals@ == b.terminals@ && a.active == b.active
}

/// Sessions that tell alike have the same infos.
pub proof fn lemma_tells_alike(a: Session, b: Session)
    requires
        tells_alike(a, b),
    ensures
        forall|info: TabInfo, ws: int, tab: int|
            is_tab_info(info, a, ws, tab) == #[trigger] is_tab_info(info, b, ws, tab),
        forall|info: WorkspaceInfo, ws: int|
            is_workspace_info(info, a, ws) == #[trigger] is_workspace_info(info, b, ws),
        forall|info: PaneInfo, ws: int, pane: u64|
            is_pane_info(info, a, ws, pane) == #[trigger] is_pane_info(info, b, ws, pane),
        forall|ws: int, pane: u64| has_info(a, ws, pane) == #[trigger] has_info(b, ws, pane),
{
}

/// A label read off the screen never makes a pane able to give receipts: only what a hook reported
/// and was confirmed does.
pub proof fn law_no_receipt_without_a_confirmed_hook(session: Session, pane_id: Seq<char>)
    ensures
        receiver_of(session, pane_id) matches Some(terminal) ==> terminal.confirmed_hook_label is Some
            && !(terminal.runtime matches Some(r) && r.exit_pending),
{
}

/// A session kept for another agent does not anchor a receipt.
pub proof fn law_receipts_carry_only_the_same_agents_session(
    r: AuthoritativeReceiver,
    session: Session,
    pane_id: Seq<char>,
)
    requires
        is_receiver(r, session, pane_id),
    ensures
        r.agent_session matches Some(told) ==> told.agent@ == r.agent_label@,
{
}

} // verus!
