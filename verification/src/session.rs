//! The session: workspaces of tabs of panes, and the terminals the panes show.

use vstd::prelude::*;
use vstd::string::*;
use crate::info::{AgentStatus, PaneInfo, TabInfo, WorkspaceInfo};
use crate::metadata::TokenStore;
use crate::search::{first_where, lemma_first_where, lemma_is_first};
use crate::text::same_text;

verus! {

#[derive(Clone, Copy, Debug, PartialEq, Eq, Structural)]
pub enum Mode {
    Navigate,
    Terminal,
    RenameWorkspace,
}

#[derive(Clone, Copy, Debug, PartialEq, Eq, Structural)]
pub enum AgentState {
    Idle,
    Working,
    Blocked,
    Unknown,
}

#[derive(Clone, Copy, Debug, PartialEq, Eq, Structural)]
pub enum Agent {
    Claude,
    Codex,
    Gemini,
    GithubCopilot,
    Hermes,
    Pi,
    /// Any other agent, by its number in the list of agents that are recognised.
    Other(u32),
}

/// What the foreground job of a terminal looks like.
#[derive(Debug)]
pub struct ForegroundJob {
    /// The agent the job as a whole was recognised as.
    pub identified: Option<Agent>,
    /// What each process of the job says of itself, in order.
    pub hints: Vec<Option<Agent>>,
}

/// An agent that was started here and is watched.
#[derive(Clone, Copy, Debug, PartialEq, Eq, Structural)]
pub struct ManagedAgent {
    pub launch_pending: bool,
    pub interactive_ready: bool,
}

#[derive(Clone, Copy, Debug, PartialEq, Eq, Structural)]
pub enum SessionRefKind {
    Id,
    Path,
}

/// A pointer to an agent's own session, as its hook reported it.
#[derive(Debug)]
pub struct SessionRef {
    pub kind: SessionRefKind,
    pub value: String,
}

/// An agent identity with lifecycle, reported by the agent's hook.
#[derive(Debug)]
pub struct HookAuthority {
    pub source: String,
    pub agent_label: String,
    pub session_ref: Option<SessionRef>,
}

/// A session that was reported earlier and kept.
#[derive(Debug)]
pub struct PersistedSession {
    pub source: String,
    pub agent: String,
    pub session_ref: SessionRef,
}

#[derive(Clone, Copy, Debug, PartialEq, Eq, Structural)]
pub struct ScrollMetrics {
    pub offset_from_bottom: u64,
    pub max_offset_from_bottom: u64,
    pub viewport_rows: u64,
}

/// What is known of the process side of a terminal.
#[derive(Debug)]
pub struct Runtime {
    /// The PTY child's pid, with the start time captured when it was published.
    pub child: Option<(u32, Option<u64>)>,
    /// An exit was captured and has not been handled yet.
    pub exit_pending: bool,
    pub cwd: Option<String>,
    pub foreground_cwd: Option<String>,
    pub scroll: Option<ScrollMetrics>,
    /// The title the program in the terminal last set, and the same without its progress marks.
    pub title: Option<String>,
    pub title_stripped: Option<String>,
    pub job: Option<ForegroundJob>,
}

/// What a state is called for one agent.
#[derive(Debug)]
pub struct StateLabel {
    pub state: String,
    pub label: String,
}

/// What the agent panel shows for a terminal.
#[derive(Debug)]
pub struct Presentation {
    pub title: Option<String>,
    pub display_agent: Option<String>,
    pub state_labels: Vec<StateLabel>,
}

#[derive(Debug)]
pub struct Terminal {
    pub id: String,
    pub cwd: Option<String>,
    pub agent_name: Option<String>,
    pub manual_label: Option<String>,
    /// The label of the agent in charge: the hook's where there is one, else the detected one.
    pub agent_label: Option<String>,
    /// The agent in charge, where it is a known one.
    pub known_agent: Option<Agent>,
    /// The agent that the screen looks like.
    pub detected_agent: Option<Agent>,
    pub state: AgentState,
    /// Counts the agent's changes of state.
    pub state_change_seq: Option<u64>,
    pub managed: Option<ManagedAgent>,
    pub presentation: Presentation,
    pub hook_authority: Option<HookAuthority>,
    /// The hook reports the agent's whole lifecycle, so the screen is not looked at.
    pub full_lifecycle_hook: bool,
    /// The agent label of a hook identity that is confirmed, never a detected one.
    pub confirmed_hook_label: Option<String>,
    pub persisted_session: Option<PersistedSession>,
    pub raw_title: Option<String>,
    pub stripped_title: Option<String>,
    /// Counts changes of the title, but for its progress marks, and of the tokens; wraps round.
    pub revision: u64,
    pub tokens: TokenStore,
    pub runtime: Option<Runtime>,
}

#[derive(Debug)]
pub struct Pane {
    pub id: u64,
    pub public_id: String,
    pub terminal_id: String,
    pub seen: bool,
}

#[derive(Debug)]
pub struct Tab {
    pub public_id: String,
    pub custom_name: Option<String>,
    pub panes: Vec<Pane>,
    pub root_pane: u64,
    pub focused: u64,
    pub zoomed: bool,
}

/// A workspace's membership in a repository's group of worktrees.
#[derive(Debug)]
pub struct WorktreeSpace {
    pub key: String,
    pub label: String,
    pub repo_root: String,
    pub checkout_path: String,
    pub is_linked_worktree: bool,
}

#[derive(Debug)]
pub struct Workspace {
    pub id: String,
    pub custom_name: Option<String>,
    /// What the workspace is called while it has no name of its own.
    pub auto_label: String,
    pub identity_cwd: Option<String>,
    pub tabs: Vec<Tab>,
    pub active_tab: usize,
    pub worktree: Option<WorktreeSpace>,
    pub tokens: TokenStore,
}

#[derive(Debug)]
pub struct PaneAlias {
    pub alias: String,
    pub pane: u64,
}

#[derive(Debug)]
pub struct Session {
    pub workspaces: Vec<Workspace>,
    pub terminals: Vec<Terminal>,
    pub pane_aliases: Vec<PaneAlias>,
    pub active: Option<usize>,
    pub selected: usize,
    pub mode: Mode,
    pub graphics_enabled: bool,
    /// The pane whose text is being copied from with the keyboard.
    pub copy_mode_pane: Option<u64>,
    /// What happened, for whoever listens; oldest first.
    pub events: Vec<Event>,
    /// The session is to be written to disk.
    pub save_scheduled: bool,
    /// The areas of the tab bar are to be worked out again.
    pub tab_bar_stale: bool,
    pub tab_scroll_follow_active: bool,
    /// The terminals whose processes are to be ended.
    pub terminal_shutdowns: Vec<String>,
    /// When the next detail of what the agent panel shows expires.
    pub presentation_deadline: Option<u64>,
    /// When the next metadata of any kind expires.
    pub metadata_deadline: Option<u64>,
}

/// The revision after `n`.
pub open spec fn next_revision(n: u64) -> u64 {
    if n == u64::MAX {
        0
    } else {
        (n + 1) as u64
    }
}

pub fn revision_after(n: u64) -> (r: u64)
    ensures
        r == next_revision(n),
{
    if n == u64::MAX {
        0
    } else {
        n + 1
    }
}

/// Something that happened to the session, with what there is to say of it afterwards.
#[derive(Debug)]
pub enum Event {
    WorkspaceCreated { workspace: WorkspaceInfo },
    WorkspaceRenamed { workspace_id: String, label: String },
    WorkspaceMoved { workspace_id: String, insert_index: usize, workspaces: Vec<WorkspaceInfo> },
    WorkspaceReordered {
        workspace_ids: Vec<String>,
        before_workspace_id: Option<String>,
        workspaces: Vec<WorkspaceInfo>,
    },
    WorkspaceMetadataUpdated { workspace: WorkspaceInfo },
    WorkspaceClosed { workspace_id: String },
    TabCreated { tab: TabInfo },
    TabRenamed { tab_id: String, workspace_id: String, label: String },
    TabMoved { tab_id: String, workspace_id: String, insert_index: usize, tabs: Vec<TabInfo> },
    TabClosed { tab_id: String, workspace_id: String },
    PaneCreated { pane: PaneInfo },
    PaneUpdated { pane: PaneInfo },
    PaneAgentStatusChanged {
        pane_id: String,
        workspace_id: String,
        agent_status: AgentStatus,
        title: Option<String>,
        display_agent: Option<String>,
        state_labels: Vec<StateLabel>,
    },
}

/// The position of the first workspace whose id is `id`.
pub open spec fn workspace_at(ws: Seq<Workspace>, id: Seq<char>) -> Option<int> {
    first_where(ws, |w: Workspace| w.id@ == id)
}

/// The position of the first tab whose public id is `id`.
pub open spec fn tab_at(tabs: Seq<Tab>, id: Seq<char>) -> Option<int> {
    first_where(tabs, |t: Tab| t.public_id@ == id)
}

/// The workspace and tab position of the first tab whose public id is `id`.
pub open spec fn tab_in(ws: Seq<Workspace>, id: Seq<char>) -> Option<(int, int)> {
    match first_where(ws, |w: Workspace| tab_at(w.tabs@, id) is Some) {
        Some(w) => Some((w, tab_at(ws[w].tabs@, id)->Some_0)),
        None => None,
    }
}

/// The position of the pane `pane` in a list of panes.
pub open spec fn pane_at(panes: Seq<Pane>, pane: u64) -> Option<int> {
    first_where(panes, |p: Pane| p.id == pane)
}

/// The tab that holds the pane `pane`.
pub open spec fn tab_of_pane(tabs: Seq<Tab>, pane: u64) -> Option<int> {
    first_where(tabs, |t: Tab| pane_at(t.panes@, pane) is Some)
}

/// The workspace that holds the pane `pane`.
pub open spec fn workspace_of_pane(ws: Seq<Workspace>, pane: u64) -> Option<int> {
    first_where(ws, |w: Workspace| tab_of_pane(w.tabs@, pane) is Some)
}

/// The position of the first pane whose public id is `id`.
pub open spec fn pane_named(panes: Seq<Pane>, id: Seq<char>) -> Option<int> {
    first_where(panes, |p: Pane| p.public_id@ == id)
}

/// The first pane of these tabs whose public id is `id`.
pub open spec fn pane_named_in_tabs(tabs: Seq<Tab>, id: Seq<char>) -> Option<u64> {
    match first_where(tabs, |t: Tab| pane_named(t.panes@, id) is Some) {
        Some(t) => Some(tabs[t].panes@[pane_named(tabs[t].panes@, id)->Some_0].id),
        None => None,
    }
}

/// The workspace and pane of the first pane whose public id is `id`.
pub open spec fn pane_named_in(ws: Seq<Workspace>, id: Seq<char>) -> Option<(int, u64)> {
    match first_where(ws, |w: Workspace| pane_named_in_tabs(w.tabs@, id) is Some) {
        Some(w) => Some((w, pane_named_in_tabs(ws[w].tabs@, id)->Some_0)),
        None => None,
    }
}

/// The pane that `id` is an alias of.
pub open spec fn aliased(aliases: Seq<PaneAlias>, id: Seq<char>) -> Option<u64> {
    match first_where(aliases, |a: PaneAlias| a.alias@ == id) {
        Some(i) => Some(aliases[i].pane),
        None => None,
    }
}

/// The position of the first terminal whose id is `id`.
pub open spec fn terminal_at(terminals: Seq<Terminal>, id: Seq<char>) -> Option<int> {
    first_where(terminals, |t: Terminal| t.id@ == id)
}

impl Workspace {
    /// The pane that has the focus: the focused pane of the active tab.
    pub open spec fn spec_focused_pane(&self) -> Option<u64> {
        if self.active_tab < self.tabs@.len() {
            Some(self.tabs@[self.active_tab as int].focused)
        } else {
            None
        }
    }

    /// The state kept of a pane, wherever in the workspace it is.
    pub open spec fn spec_pane(&self, pane: u64) -> Option<Pane> {
        match tab_of_pane(self.tabs@, pane) {
            Some(t) => match pane_at(self.tabs@[t].panes@, pane) {
                Some(p) => Some(self.tabs@[t].panes@[p]),
                None => None,
            },
            None => None,
        }
    }
}

impl Session {
    /// Where a public pane id leads: a pane's own id first, then an alias of a pane that is still
    /// in some workspace.
    pub open spec fn spec_parse_pane_id(&self, id: Seq<char>) -> Option<(int, u64)> {
        match pane_named_in(self.workspaces@, id) {
            Some(found) => Some(found),
            None => match aliased(self.pane_aliases@, id) {
                Some(pane) => match workspace_of_pane(self.workspaces@, pane) {
                    Some(w) => Some((w, pane)),
                    None => None,
                },
                None => None,
            },
        }
    }

    /// The terminal a pane shows.
    pub open spec fn spec_terminal_of(&self, ws: int, pane: u64) -> Option<Terminal> {
        if 0 <= ws < self.workspaces@.len() {
            match self.workspaces@[ws].spec_pane(pane) {
                Some(p) => match terminal_at(self.terminals@, p.terminal_id@) {
                    Some(t) => Some(self.terminals@[t]),
                    None => None,
                },
                None => None,
            }
        } else {
            None
        }
    }
}

/// The position of a pane in a list of panes.
#[verifier::loop_isolation(false)]
pub fn find_pane(panes: &Vec<Pane>, pane: u64) -> (r: Option<usize>)
    ensures
        match r {
            Some(i) => pane_at(panes@, pane) == Some(i as int) && i < panes@.len(),
            None => pane_at(panes@, pane) is None,
        },
{
    let ghost p = |x: Pane| x.id == pane;
    let mut i: usize = 0;
    while i < panes.len()
        invariant
            i <= panes@.len(),
            forall|j: int| 0 <= j < i ==> (#[trigger] panes@[j]).id != pane,
        decreases panes@.len() - i,
    {
        if panes[i].id == pane {
            proof {
                lemma_is_first(panes@, p, i as int);
            }
            return Some(i);
        }
        i = i + 1;
    }
    proof {
        lemma_first_where(panes@, p);
    }
    None
}

#[verifier::loop_isolation(false)]
fn find_pane_named(panes: &Vec<Pane>, id: &str) -> (r: Option<usize>)
    ensures
        match r {
            Some(i) => pane_named(panes@, id@) == Some(i as int) && i < panes@.len(),
            None => pane_named(panes@, id@) is None,
        },
{
    let ghost p = |x: Pane| x.public_id@ == id@;
    let mut i: usize = 0;
    while i < panes.len()
        invariant
            i <= panes@.len(),
            forall|j: int| 0 <= j < i ==> (#[trigger] panes@[j]).public_id@ != id@,
        decreases panes@.len() - i,
    {
        if same_text(panes[i].public_id.as_str(), id) {
            proof {
                lemma_is_first(panes@, p, i as int);
            }
            return Some(i);
        }
        i = i + 1;
    }
    proof {
        lemma_first_where(panes@, p);
    }
    None
}

#[verifier::loop_isolation(false)]
fn find_pane_named_in_tabs(tabs: &Vec<Tab>, id: &str) -> (r: Option<u64>)
    ensures
        r == pane_named_in_tabs(tabs@, id@),
{
    let ghost p = |t: Tab| pane_named(t.panes@, id@) is Some;
    let mut i: usize = 0;
    while i < tabs.len()
        invariant
            i <= tabs@.len(),
            forall|j: int| 0 <= j < i ==> pane_named((#[trigger] tabs@[j]).panes@, id@) is None,
        decreases tabs@.len() - i,
    {
        match find_pane_named(&tabs[i].panes, id) {
            Some(at) => {
                proof {
                    lemma_is_first(tabs@, p, i as int);
                }
                return Some(tabs[i].panes[at].id);
            },
            None => {},
        }
        i = i + 1;
    }
    proof {
        lemma_first_where(tabs@, p);
    }
    None
}

#[verifier::loop_isolation(false)]
fn find_tab(tabs: &Vec<Tab>, id: &str) -> (r: Option<usize>)
    ensures
        match r {
            Some(i) => tab_at(tabs@, id@) == Some(i as int) && i < tabs@.len(),
            None => tab_at(tabs@, id@) is None,
        },
{
    let ghost p = |t: Tab| t.public_id@ == id@;
    let mut i: usize = 0;
    while i < tabs.len()
        invariant
            i <= tabs@.len(),
            forall|j: int| 0 <= j < i ==> (#[trigger] tabs@[j]).public_id@ != id@,
        decreases tabs@.len() - i,
    {
        if same_text(tabs[i].public_id.as_str(), id) {
            proof {
                lemma_is_first(tabs@, p, i as int);
            }
            return Some(i);
        }
        i = i + 1;
    }
    proof {
        lemma_first_where(tabs@, p);
    }
    None
}

impl Workspace {
    /// The tab that holds a pane.
    #[verifier::loop_isolation(false)]
    pub fn find_tab_index_for_pane(&self, pane: u64) -> (r: Option<usize>)
        ensures
            match r {
                Some(i) => tab_of_pane(self.tabs@, pane) == Some(i as int) && i < self.tabs@.len(),
                None => tab_of_pane(self.tabs@, pane) is None,
            },
    {
        let ghost p = |t: Tab| pane_at(t.panes@, pane) is Some;
        let mut i: usize = 0;
        while i < self.tabs.len()
            invariant
                i <= self.tabs@.len(),
                forall|j: int| 0 <= j < i ==> pane_at((#[trigger] self.tabs@[j]).panes@, pane) is None,
            decreases self.tabs@.len() - i,
        {
            if find_pane(&self.tabs[i].panes, pane).is_some() {
                proof {
                    lemma_is_first(self.tabs@, p, i as int);
                }
                return Some(i);
            }
            i = i + 1;
        }
        proof {
            lemma_first_where(self.tabs@, p);
        }
        None
    }

    pub fn pane_state(&self, pane: u64) -> (r: Option<&Pane>)
        ensures
            match r {
                Some(p) => self.spec_pane(pane) == Some(*p),
                None => self.spec_pane(pane) is None,
            },
    {
        match self.find_tab_index_for_pane(pane) {
            Some(t) => match find_pane(&self.tabs[t].panes, pane) {
                Some(p) => Some(&self.tabs[t].panes[p]),
                None => None,
            },
            None => None,
        }
    }

    pub fn focused_pane_id(&self) -> (r: Option<u64>)
        ensures
            r == self.spec_focused_pane(),
    {
        if self.active_tab < self.tabs.len() {
            Some(self.tabs[self.active_tab].focused)
        } else {
            None
        }
    }
}

impl Session {
    /// The workspace a public workspace id names.
    #[verifier::loop_isolation(false)]
    pub fn parse_workspace_id(&self, id: &str) -> (r: Option<usize>)
        ensures
            match r {
                Some(i) => workspace_at(self.workspaces@, id@) == Some(i as int) && i
                    < self.workspaces@.len(),
                None => workspace_at(self.workspaces@, id@) is None,
            },
    {
        let ghost p = |w: Workspace| w.id@ == id@;
        let mut i: usize = 0;
        while i < self.workspaces.len()
            invariant
                i <= self.workspaces@.len(),
                forall|j: int| 0 <= j < i ==> (#[trigger] self.workspaces@[j]).id@ != id@,
            decreases self.workspaces@.len() - i,
        {
            if same_text(self.workspaces[i].id.as_str(), id) {
                proof {
                    lemma_is_first(self.workspaces@, p, i as int);
                }
                return Some(i);
            }
            i = i + 1;
        }
        proof {
            lemma_first_where(self.workspaces@, p);
        }
        None
    }

    /// The workspace and tab a public tab id names.
    #[verifier::loop_isolation(false)]
    pub fn parse_tab_id(&self, id: &str) -> (r: Option<(usize, usize)>)
        ensures
            match r {
                Some((w, t)) => {
                    &&& tab_in(self.workspaces@, id@) == Some((w as int, t as int))
                    &&& w < self.workspaces@.len()
                    &&& t < self.workspaces@[w as int].tabs@.len()
                },
                None => tab_in(self.workspaces@, id@) is None,
            },
    {
        let ghost p = |w: Workspace| tab_at(w.tabs@, id@) is Some;
        let mut i: usize = 0;
        while i < self.workspaces.len()
            invariant
                i <= self.workspaces@.len(),
                forall|j: int|
                    0 <= j < i ==> tab_at((#[trigger] self.workspaces@[j]).tabs@, id@) is None,
            decreases self.workspaces@.len() - i,
        {
            match find_tab(&self.workspaces[i].tabs, id) {
                Some(t) => {
                    proof {
                        lemma_is_first(self.workspaces@, p, i as int);
                    }
                    return Some((i, t));
                },
                None => {},
            }
            i = i + 1;
        }
        proof {
            lemma_first_where(self.workspaces@, p);
        }
        None
    }

    /// The workspace that holds a pane.
    #[verifier::loop_isolation(false)]
    pub fn find_workspace_of_pane(&self, pane: u64) -> (r: Option<usize>)
        ensures
            match r {
                Some(i) => workspace_of_pane(self.workspaces@, pane) == Some(i as int) && i
                    < self.workspaces@.len(),
                None => workspace_of_pane(self.workspaces@, pane) is None,
            },
    {
        let ghost p = |w: Workspace| tab_of_pane(w.tabs@, pane) is Some;
        let mut i: usize = 0;
        while i < self.workspaces.len()
            invariant
                i <= self.workspaces@.len(),
                forall|j: int|
                    0 <= j < i ==> tab_of_pane((#[trigger] self.workspaces@[j]).tabs@, pane) is None,
            decreases self.workspaces@.len() - i,
        {
            if self.workspaces[i].find_tab_index_for_pane(pane).is_some() {
                proof {
                    lemma_is_first(self.workspaces@, p, i as int);
                }
                return Some(i);
            }
            i = i + 1;
        }
        proof {
            lemma_first_where(self.workspaces@, p);
        }
        None
    }

    #[verifier::loop_isolation(false)]
    fn find_alias(&self, id: &str) -> (r: Option<u64>)
        ensures
            r == aliased(self.pane_aliases@, id@),
    {
        let ghost p = |a: PaneAlias| a.alias@ == id@;
        let mut i: usize = 0;
        while i < self.pane_aliases.len()
            invariant
                i <= self.pane_aliases@.len(),
                forall|j: int| 0 <= j < i ==> (#[trigger] self.pane_aliases@[j]).alias@ != id@,
            decreases self.pane_aliases@.len() - i,
        {
            if same_text(self.pane_aliases[i].alias.as_str(), id) {
                proof {
                    lemma_is_first(self.pane_aliases@, p, i as int);
                }
                return Some(self.pane_aliases[i].pane);
            }
            i = i + 1;
        }
        proof {
            lemma_first_where(self.pane_aliases@, p);
        }
        None
    }

    /// The workspace and pane a public pane id leads to.
    #[verifier::loop_isolation(false)]
    pub fn parse_pane_id(&self, id: &str) -> (r: Option<(usize, u64)>)
        ensures
            match r {
                Some((w, p)) => self.spec_parse_pane_id(id@) == Some((w as int, p)) && w
                    < self.workspaces@.len(),
                None => self.spec_parse_pane_id(id@) is None,
            },
    {
        let ghost p = |w: Workspace| pane_named_in_tabs(w.tabs@, id@) is Some;
        let mut i: usize = 0;
        while i < self.workspaces.len()
            invariant
                i <= self.workspaces@.len(),
                forall|j: int|
                    0 <= j < i ==> pane_named_in_tabs(
                        (#[trigger] self.workspaces@[j]).tabs@,
                        id@,
                    ) is None,
            decreases self.workspaces@.len() - i,
        {
            match find_pane_named_in_tabs(&self.workspaces[i].tabs, id) {
                Some(pane) => {
                    proof {
                        lemma_is_first(self.workspaces@, p, i as int);
                    }
                    return Some((i, pane));
                },
                None => {},
            }
            i = i + 1;
        }
        proof {
            lemma_first_where(self.workspaces@, p);
        }
        match self.find_alias(id) {
            Some(pane) => match self.find_workspace_of_pane(pane) {
                Some(w) => Some((w, pane)),
                None => None,
            },
            None => None,
        }
    }

    /// The position of a terminal.
    #[verifier::loop_isolation(false)]
    pub fn find_terminal(&self, id: &str) -> (r: Option<usize>)
        ensures
            match r {
                Some(i) => terminal_at(self.terminals@, id@) == Some(i as int) && i
                    < self.terminals@.len(),
                None => terminal_at(self.terminals@, id@) is None,
            },
    {
        let ghost p = |t: Terminal| t.id@ == id@;
        let mut i: usize = 0;
        while i < self.terminals.len()
            invariant
                i <= self.terminals@.len(),
                forall|j: int| 0 <= j < i ==> (#[trigger] self.terminals@[j]).id@ != id@,
            decreases self.terminals@.len() - i,
        {
            if same_text(self.terminals[i].id.as_str(), id) {
                proof {
                    lemma_is_first(self.terminals@, p, i as int);
                }
                return Some(i);
            }
            i = i + 1;
        }
        proof {
            lemma_first_where(self.terminals@, p);
        }
        None
    }

    /// The terminal a pane shows.
    pub fn terminal_of(&self, ws: usize, pane: u64) -> (r: Option<&Terminal>)
        ensures
            match r {
                Some(t) => self.spec_terminal_of(ws as int, pane) == Some(*t),
                None => self.spec_terminal_of(ws as int, pane) is None,
            },
    {
        if ws >= self.workspaces.len() {
            return None;
        }
        match self.workspaces[ws].pane_state(pane) {
            Some(p) => match self.find_terminal(p.terminal_id.as_str()) {
                Some(t) => Some(&self.terminals[t]),
                None => None,
            },
            None => None,
        }
    }
}

} // verus!
