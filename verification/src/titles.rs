//! Titles: what terminals call themselves, and what the window is called.

use vstd::prelude::*;
use vstd::string::*;
use crate::info::has_info;
use crate::session::{next_revision, revision_after, terminal_at, Pane, Session, Tab, Terminal};
use crate::text::{clone_opt_text, opt_view, same_opt_text};
use crate::updates::{refs, with_info, PaneRef};

verus! {

// ---------------------------------------------------------------------------------------------
// The window's title
// ---------------------------------------------------------------------------------------------

#[derive(Debug)]
pub enum TitlePart {
    Literal(String),
    Hostname,
    Workspace,
    Tab,
    Pane,
    TerminalTitle,
}

#[derive(Debug)]
pub struct WindowTitle {
    pub parts: Vec<TitlePart>,
    pub hostname: String,
}

pub open spec fn mentions_hostname(parts: Seq<TitlePart>) -> bool {
    exists|i: int| 0 <= i < parts.len() && (#[trigger] parts[i]) is Hostname
}

pub open spec fn mentions_terminal_title(parts: Seq<TitlePart>) -> bool {
    exists|i: int| 0 <= i < parts.len() && (#[trigger] parts[i]) is TerminalTitle
}

pub open spec fn or_nothing(text: Option<Seq<char>>) -> Seq<char> {
    match text {
        Some(t) => t,
        None => Seq::empty(),
    }
}

impl Session {
    /// The active workspace, where it is there.
    pub open spec fn spec_active_workspace(&self) -> Option<int> {
        match self.active {
            Some(a) => if a < self.workspaces@.len() {
                Some(a as int)
            } else {
                None
            },
            None => None,
        }
    }

    /// The terminal that has the focus.
    pub open spec fn spec_focused_terminal(&self) -> Option<Terminal> {
        match self.spec_active_workspace() {
            Some(ws) => match self.workspaces@[ws].spec_focused_pane() {
                Some(pane) => self.spec_terminal_of(ws, pane),
                None => None,
            },
            None => None,
        }
    }

    /// What a part of the window's title stands for: nothing where what it names is not there.
    pub open spec fn part_text(&self, part: TitlePart, hostname: Seq<char>) -> Seq<char> {
        match part {
            TitlePart::Literal(text) => text@,
            TitlePart::Hostname => hostname,
            TitlePart::Workspace => match self.spec_active_workspace() {
                Some(ws) => self.workspaces@[ws].spec_display_name(),
                None => Seq::empty(),
            },
            TitlePart::Tab => match self.spec_active_workspace() {
                Some(ws) => {
                    let w = self.workspaces@[ws];
                    if w.active_tab < w.tabs@.len() {
                        w.spec_tab_name(w.active_tab as int)
                    } else {
                        Seq::empty()
                    }
                },
                None => Seq::empty(),
            },
            TitlePart::Pane => match self.spec_focused_terminal() {
                Some(t) => or_nothing(opt_view(t.manual_label)),
                None => Seq::empty(),
            },
            TitlePart::TerminalTitle => match self.spec_focused_terminal() {
                Some(t) => or_nothing(opt_view(t.stripped_title)),
                None => Seq::empty(),
            },
        }
    }

    pub open spec fn title_text(&self, parts: Seq<TitlePart>, hostname: Seq<char>) -> Seq<char>
        decreases parts.len(),
    {
        if parts.len() == 0 {
            Seq::empty()
        } else {
            self.title_text(parts.drop_last(), hostname) + self.part_text(parts.last(), hostname)
        }
    }

    pub fn focused_terminal_state(&self) -> (r: Option<&Terminal>)
        ensures
            match r {
                Some(t) => self.spec_focused_terminal() == Some(*t),
                None => self.spec_focused_terminal() is None,
            },
    {
        match self.active {
            Some(active) => {
                if active >= self.workspaces.len() {
                    return None;
                }
                match self.workspaces[active].focused_pane_id() {
                    Some(pane) => self.terminal_of(active, pane),
                    None => None,
                }
            },
            None => None,
        }
    }

    fn append_part(&self, title: &mut String, part: &TitlePart, hostname: &str)
        ensures
            final(title)@ == old(title)@ + self.part_text(*part, hostname@),
    {
        let ghost before = title@;
        match part {
            TitlePart::Literal(text) => title.append(text.as_str()),
            TitlePart::Hostname => title.append(hostname),
            TitlePart::Workspace => match self.active {
                Some(active) => {
                    if active < self.workspaces.len() {
                        title.append(self.workspaces[active].display_name().as_str());
                    }
                },
                None => {},
            },
            TitlePart::Tab => match self.active {
                Some(active) => {
                    if active < self.workspaces.len() {
                        let w = &self.workspaces[active];
                        match w.tab_display_name(w.active_tab) {
                            Some(name) => title.append(name.as_str()),
                            None => {},
                        }
                    }
                },
                None => {},
            },
            TitlePart::Pane => match self.focused_terminal_state() {
                Some(terminal) => match &terminal.manual_label {
                    Some(label) => title.append(label.as_str()),
                    None => {},
                },
                None => {},
            },
            TitlePart::TerminalTitle => match self.focused_terminal_state() {
                Some(terminal) => match &terminal.stripped_title {
                    Some(text) => title.append(text.as_str()),
                    None => {},
                },
                None => {},
            },
        }
        proof {
            assert(title@ =~= before + self.part_text(*part, hostname@));
        }
    }

    /// The window's title, where one is configured.
    pub fn window_title(&self, configured: &Option<WindowTitle>) -> (r: Option<String>)
        ensures
            match (configured, r) {
                (Some(template), Some(title)) => title@ == self.title_text(
                    template.parts@,
                    template.hostname@,
                ),
                (None, None) => true,
                _ => false,
            },
    {
        match configured {
            Some(template) => {
                let mut title = String::new();
                let mut i: usize = 0;
                while i < template.parts.len()
                    invariant
                        i <= template.parts@.len(),
                        title@ == self.title_text(
                            template.parts@.take(i as int),
                            template.hostname@,
                        ),
                    decreases template.parts@.len() - i,
                {
                    self.append_part(&mut title, &template.parts[i], template.hostname.as_str());
                    i = i + 1;
                    proof {
                        assert(template.parts@.take(i as int).drop_last()
                            =~= template.parts@.take(i - 1));
                    }
                }
                proof {
                    assert(template.parts@.take(i as int) =~= template.parts@);
                }
                Some(title)
            },
            None => None,
        }
    }
}

/// Whether the machine's name has to be looked up for a title.
pub fn uses_hostname(parts: &Vec<TitlePart>) -> (r: bool)
    ensures
        r == mentions_hostname(parts@),
{
    let mut i: usize = 0;
    while i < parts.len()
        invariant
            i <= parts@.len(),
            forall|j: int| 0 <= j < i ==> !((#[trigger] parts@[j]) is Hostname),
        decreases parts@.len() - i,
    {
        if matches!(parts[i], TitlePart::Hostname) {
            return true;
        }
        i = i + 1;
    }
    false
}

/// The title that is configured, with the host's name where it is mentioned.
pub open spec fn is_configured_title(
    parts: Option<Vec<TitlePart>>,
    hostname: Option<String>,
    r: Option<WindowTitle>,
) -> bool {
    match (parts, r) {
        (Some(p), Some(title)) => title.parts == p && title.hostname@ == if mentions_hostname(
            p@,
        ) {
            or_nothing(opt_view(hostname))
        } else {
            Seq::empty()
        },
        (None, None) => true,
        _ => false,
    }
}

/// Take a parsed template as the window's title; the machine's name is kept only where the title
/// mentions it.
pub fn configure_window_title(parts: Option<Vec<TitlePart>>, hostname: Option<String>) -> (r: Option<
    WindowTitle,
>)
    ensures
        is_configured_title(parts, hostname, r),
{
    match parts {
        Some(parts) => {
            let hostname = if uses_hostname(&parts) {
                match hostname {
                    Some(name) => name,
                    None => String::new(),
                }
            } else {
                String::new()
            };
            Some(WindowTitle { parts, hostname })
        },
        None => None,
    }
}

pub fn window_title_configured(configured: &Option<WindowTitle>) -> (r: bool)
    ensures
        r == (configured is Some),
{
    configured.is_some()
}

/// Whether the window's title follows that of the focused terminal.
pub fn window_title_uses_terminal_title(configured: &Option<WindowTitle>) -> (r: bool)
    ensures
        r == (configured matches Some(title) && mentions_terminal_title(title.parts@)),
{
    match configured {
        Some(title) => uses_terminal_title(&title.parts),
        None => false,
    }
}

fn uses_terminal_title(parts: &Vec<TitlePart>) -> (r: bool)
    ensures
        r == mentions_terminal_title(parts@),
{
    let mut i: usize = 0;
    while i < parts.len()
        invariant
            i <= parts@.len(),
            forall|j: int| 0 <= j < i ==> !((#[trigger] parts@[j]) is TerminalTitle),
        decreases parts@.len() - i,
    {
        if matches!(parts[i], TitlePart::TerminalTitle) {
            return true;
        }
        i = i + 1;
    }
    false
}

// ---------------------------------------------------------------------------------------------
// Terminals' titles
// ---------------------------------------------------------------------------------------------

/// A token of a row in the sidebar's list of agents.
#[derive(Clone, Copy, Debug, PartialEq, Eq, Structural)]
pub enum AgentToken {
    Agent,
    Pane,
    TerminalTitle,
    TerminalTitleStripped,
    /// A metadata token, shown under its own name whatever that is.
    Custom,
}

/// The rows of an agent in the sidebar, and those that some agents have instead.
#[derive(Debug)]
pub struct AgentRows {
    pub rows: Vec<Vec<AgentToken>>,
    pub rows_by_agent: Vec<Vec<Vec<AgentToken>>>,
}

#[derive(Clone, Copy, Debug, PartialEq, Eq, Structural)]
pub struct TitleChanges {
    pub raw_changed: bool,
    pub stripped_changed: bool,
}

pub open spec fn row_has(row: Seq<AgentToken>, token: AgentToken) -> bool {
    exists|i: int| 0 <= i < row.len() && #[trigger] row[i] == token
}

pub open spec fn rows_have(rows: Seq<Vec<AgentToken>>, token: AgentToken) -> bool {
    exists|i: int| 0 <= i < rows.len() && row_has((#[trigger] rows[i])@, token)
}

/// The token is shown: in the common rows or in some agent's own.
pub open spec fn is_shown(config: AgentRows, token: AgentToken) -> bool {
    rows_have(config.rows@, token) || exists|i: int|
        0 <= i < config.rows_by_agent@.len() && rows_have(
            (#[trigger] config.rows_by_agent@[i])@,
            token,
        )
}

fn rows_contain(rows: &Vec<Vec<AgentToken>>, token: AgentToken) -> (r: bool)
    ensures
        r == rows_have(rows@, token),
{
    let mut i: usize = 0;
    while i < rows.len()
        invariant
            i <= rows@.len(),
            forall|x: int| 0 <= x < i ==> !row_has((#[trigger] rows@[x])@, token),
        decreases rows@.len() - i,
    {
        let row = &rows[i];
        let mut j: usize = 0;
        while j < row.len()
            invariant
                i < rows@.len(),
                row@ == rows@[i as int]@,
                j <= row@.len(),
                forall|y: int| 0 <= y < j ==> #[trigger] row@[y] != token,
            decreases row@.len() - j,
        {
            if row[j] == token {
                proof {
                    assert(row_has(rows@[i as int]@, token));
                }
                return true;
            }
            j = j + 1;
        }
        i = i + 1;
    }
    false
}

fn token_shown(config: &AgentRows, token: AgentToken) -> (r: bool)
    ensures
        r == is_shown(*config, token),
{
    if rows_contain(&config.rows, token) {
        return true;
    }
    let mut i: usize = 0;
    while i < config.rows_by_agent.len()
        invariant
            i <= config.rows_by_agent@.len(),
            forall|x: int|
                0 <= x < i ==> !rows_have((#[trigger] config.rows_by_agent@[x])@, token),
        decreases config.rows_by_agent@.len() - i,
    {
        if rows_contain(&config.rows_by_agent[i], token) {
            return true;
        }
        i = i + 1;
    }
    false
}

/// Whether changed titles show in the sidebar.
pub fn terminal_title_sidebar_changed(config: &AgentRows, changes: &TitleChanges) -> (r: bool)
    ensures
        r == ((changes.raw_changed && is_shown(*config, AgentToken::TerminalTitle)) || (
        changes.stripped_changed && is_shown(*config, AgentToken::TerminalTitleStripped))),
{
    (changes.raw_changed && token_shown(config, AgentToken::TerminalTitle)) || (
    changes.stripped_changed && token_shown(config, AgentToken::TerminalTitleStripped))
}

/// Whether titles show in the sidebar at all.
pub fn terminal_title_sidebar_configured(config: &AgentRows) -> (r: bool)
    ensures
        r == (is_shown(*config, AgentToken::TerminalTitle) || is_shown(
            *config,
            AgentToken::TerminalTitleStripped,
        )),
{
    token_shown(config, AgentToken::TerminalTitle) || token_shown(
        config,
        AgentToken::TerminalTitleStripped,
    )
}

/// A pane whose terminal's title was looked at.
#[derive(Debug)]
pub struct Observation {
    pub workspace: usize,
    pub pane: u64,
    pub terminal_id: String,
}

pub open spec fn raw_differs(t: Terminal) -> bool {
    t.runtime matches Some(r) && opt_view(r.title) != opt_view(t.raw_title)
}

pub open spec fn stripped_differs(t: Terminal) -> bool {
    t.runtime matches Some(r) && opt_view(r.title_stripped) != opt_view(t.stripped_title)
}

/// The terminal with the titles its program set last.
pub open spec fn retitled(t: Terminal) -> Terminal {
    match t.runtime {
        Some(r) => Terminal {
            raw_title: r.title,
            stripped_title: r.title_stripped,
            revision: if stripped_differs(t) {
                next_revision(t.revision)
            } else {
                t.revision
            },
            ..t
        },
        None => t,
    }
}

/// The terminals after one observation.
pub open spec fn after_observation(terminals: Seq<Terminal>, id: Seq<char>) -> Seq<Terminal> {
    match terminal_at(terminals, id) {
        Some(i) => terminals.update(i, retitled(terminals[i])),
        None => terminals,
    }
}

/// The terminals after the observations, in order.
pub open spec fn after_observations(terminals: Seq<Terminal>, seen: Seq<Observation>) -> Seq<Terminal>
    decreases seen.len(),
{
    if seen.len() == 0 {
        terminals
    } else {
        after_observation(
            after_observations(terminals, seen.drop_last()),
            seen.last().terminal_id@,
        )
    }
}

/// What an observation finds changed.
pub open spec fn finds(terminals: Seq<Terminal>, id: Seq<char>) -> TitleChanges {
    match terminal_at(terminals, id) {
        Some(i) => TitleChanges {
            raw_changed: raw_differs(terminals[i]),
            stripped_changed: stripped_differs(terminals[i]),
        },
        None => TitleChanges { raw_changed: false, stripped_changed: false },
    }
}

/// What the observations together find changed.
pub open spec fn all_found(terminals: Seq<Terminal>, seen: Seq<Observation>) -> TitleChanges
    decreases seen.len(),
{
    if seen.len() == 0 {
        TitleChanges { raw_changed: false, stripped_changed: false }
    } else {
        let before = all_found(terminals, seen.drop_last());
        let last = finds(
            after_observations(terminals, seen.drop_last()),
            seen.last().terminal_id@,
        );
        TitleChanges {
            raw_changed: before.raw_changed || last.raw_changed,
            stripped_changed: before.stripped_changed || last.stripped_changed,
        }
    }
}

/// The panes to tell listeners of: those whose title changed in more than its progress marks.
pub open spec fn to_publish(terminals: Seq<Terminal>, seen: Seq<Observation>) -> Seq<PaneRef>
    decreases seen.len(),
{
    if seen.len() == 0 {
        Seq::empty()
    } else {
        let before = to_publish(terminals, seen.drop_last());
        if finds(
            after_observations(terminals, seen.drop_last()),
            seen.last().terminal_id@,
        ).stripped_changed {
            before.push((seen.last().workspace as int, seen.last().pane))
        } else {
            before
        }
    }
}

pub open spec fn observes(o: Observation, ws: int, pane: Pane) -> bool {
    o.workspace == ws && o.pane == pane.id && o.terminal_id == pane.terminal_id
}

/// A pane is looked at where it is asked for and its terminal has a process.
pub open spec fn is_observed(session: Session, pane: Pane, sources: Seq<u64>) -> bool {
    sources.contains(pane.id) && (terminal_at(
        session.terminals@,
        pane.terminal_id@,
    ) matches Some(t) && session.terminals@[t].runtime is Some)
}

/// The panes of a list that are looked at, with their workspace.
pub open spec fn observed_panes(session: Session, ws: int, panes: Seq<Pane>, sources: Seq<u64>) -> Seq<
    (int, Pane),
>
    decreases panes.len(),
{
    if panes.len() == 0 {
        Seq::empty()
    } else {
        let before = observed_panes(session, ws, panes.drop_last(), sources);
        if is_observed(session, panes.last(), sources) {
            before.push((ws, panes.last()))
        } else {
            before
        }
    }
}

pub open spec fn observed_tabs(session: Session, ws: int, tabs: Seq<Tab>, sources: Seq<u64>) -> Seq<
    (int, Pane),
>
    decreases tabs.len(),
{
    if tabs.len() == 0 {
        Seq::empty()
    } else {
        observed_tabs(session, ws, tabs.drop_last(), sources) + observed_panes(
            session,
            ws,
            tabs.last().panes@,
            sources,
        )
    }
}

/// The panes of the first `n` workspaces that are looked at.
pub open spec fn observed(session: Session, n: int, sources: Seq<u64>) -> Seq<(int, Pane)>
    decreases n,
{
    if n <= 0 {
        Seq::empty()
    } else {
        observed(session, n - 1, sources) + observed_tabs(
            session,
            n - 1,
            session.workspaces@[n - 1].tabs@,
            sources,
        )
    }
}

pub open spec fn are_observations(seen: Seq<Observation>, panes: Seq<(int, Pane)>) -> bool {
    &&& seen.len() == panes.len()
    &&& forall|i: int| 0 <= i < seen.len() ==> observes(#[trigger] seen[i], panes[i].0, panes[i].1)
}

/// `new` is `old` after the titles of the panes `sources` were looked at, with `seen` the
/// observations, and `changes` what they found.
pub open spec fn titles_synced(
    old: Session,
    new: Session,
    seen: Seq<Observation>,
    changes: TitleChanges,
) -> bool {
    &&& new == (Session { terminals: new.terminals, events: new.events, ..old })
    &&& new.terminals@ == after_observations(old.terminals@, seen)
    &&& changes == all_found(old.terminals@, seen)
    &&& crate::updates::panes_told(
        old.events@,
        new.events@,
        new,
        with_info(new, to_publish(old.terminals@, seen)),
    )
}

fn contains(sources: &Vec<u64>, pane: u64) -> (r: bool)
    ensures
        r == sources@.contains(pane),
{
    let mut i: usize = 0;
    while i < sources.len()
        invariant
            i <= sources@.len(),
            forall|j: int| 0 <= j < i ==> sources@[j] != pane,
        decreases sources@.len() - i,
    {
        if sources[i] == pane {
            return true;
        }
        i = i + 1;
    }
    false
}

/// Take over the titles the terminal's program set last: what changed.
fn set_terminal_title(terminal: &mut Terminal) -> (r: TitleChanges)
    ensures
        *final(terminal) == retitled(*old(terminal)),
        r == (TitleChanges {
            raw_changed: raw_differs(*old(terminal)),
            stripped_changed: stripped_differs(*old(terminal)),
        }),
{
    let (raw, stripped): (Option<String>, Option<String>) = match &terminal.runtime {
        Some(runtime) => (clone_opt_text(&runtime.title), clone_opt_text(&runtime.title_stripped)),
        None => {
            return TitleChanges { raw_changed: false, stripped_changed: false };
        },
    };
    let raw_changed = !same_opt_text(&raw, &terminal.raw_title);
    let stripped_changed = !same_opt_text(&stripped, &terminal.stripped_title);
    terminal.raw_title = raw;
    terminal.stripped_title = stripped;
    if stripped_changed {
        terminal.revision = revision_after(terminal.revision);
    }
    TitleChanges { raw_changed, stripped_changed }
}

impl Session {
    fn observe_panes(&self, ws: usize, panes: &Vec<Pane>, sources: &Vec<u64>, seen: &mut Vec<
        Observation,
    >, Ghost(told): Ghost<Seq<(int, Pane)>>)
        requires
            are_observations(old(seen)@, told),
        ensures
            are_observations(
                final(seen)@,
                told + observed_panes(*self, ws as int, panes@, sources@),
            ),
    {
        let mut i: usize = 0;
        proof {
            assert(told + observed_panes(*self, ws as int, panes@.take(0), sources@) =~= told);
        }
        while i < panes.len()
            invariant
                i <= panes@.len(),
                are_observations(
                    seen@,
                    told + observed_panes(*self, ws as int, panes@.take(i as int), sources@),
                ),
            decreases panes@.len() - i,
        {
            let ghost so_far = told + observed_panes(
                *self,
                ws as int,
                panes@.take(i as int),
                sources@,
            );
            proof {
                assert(panes@.take(i + 1).drop_last() =~= panes@.take(i as int));
                assert(panes@.take(i + 1).last() == panes@[i as int]);
            }
            let pane = &panes[i];
            let has_process = match self.find_terminal(pane.terminal_id.as_str()) {
                Some(t) => self.terminals[t].runtime.is_some(),
                None => false,
            };
            if contains(sources, pane.id) && has_process {
                seen.push(
                    Observation {
                        workspace: ws,
                        pane: pane.id,
                        terminal_id: pane.terminal_id.clone(),
                    },
                );
                proof {
                    assert(told + observed_panes(*self, ws as int, panes@.take(i + 1), sources@)
                        =~= so_far.push((ws as int, *pane)));
                }
            }
            i = i + 1;
        }
        proof {
            assert(panes@.take(i as int) =~= panes@);
        }
    }

    /// Look at the panes that are asked for.
    pub fn observe_titles(&self, sources: &Vec<u64>) -> (r: Vec<Observation>)
        ensures
            are_observations(r@, observed(*self, self.workspaces@.len() as int, sources@)),
    {
        let mut seen: Vec<Observation> = Vec::new();
        let mut w: usize = 0;
        while w < self.workspaces.len()
            invariant
                w <= self.workspaces@.len(),
                are_observations(seen@, observed(*self, w as int, sources@)),
            decreases self.workspaces@.len() - w,
        {
            let ghost done = observed(*self, w as int, sources@);
            let tabs = &self.workspaces[w].tabs;
            let mut t: usize = 0;
            proof {
                assert(done + observed_tabs(*self, w as int, tabs@.take(0), sources@) =~= done);
            }
            while t < tabs.len()
                invariant
                    t <= tabs@.len(),
                    are_observations(
                        seen@,
                        done + observed_tabs(*self, w as int, tabs@.take(t as int), sources@),
                    ),
                decreases tabs@.len() - t,
            {
                let ghost so_far = done + observed_tabs(
                    *self,
                    w as int,
                    tabs@.take(t as int),
                    sources@,
                );
                self.observe_panes(w, &tabs[t].panes, sources, &mut seen, Ghost(so_far));
                proof {
                    assert(tabs@.take(t + 1).drop_last() =~= tabs@.take(t as int));
                    assert(tabs@.take(t + 1).last() == tabs@[t as int]);
                    assert(done + observed_tabs(*self, w as int, tabs@.take(t + 1), sources@)
                        =~= so_far + observed_panes(
                        *self,
                        w as int,
                        tabs@[t as int].panes@,
                        sources@,
                    ));
                }
                t = t + 1;
            }
            proof {
                assert(tabs@.take(t as int) =~= tabs@);
            }
            w = w + 1;
        }
        seen
    }

    /// Take over the titles that were looked at, and tell listeners of the panes whose title
    /// changed in more than its progress marks.
    pub fn sync_terminal_title_sources(&mut self, sources: &Vec<u64>) -> (r: TitleChanges)
        ensures
            exists|seen: Seq<Observation>| #[trigger]
                are_observations(
                    seen,
                    observed(*old(self), old(self).workspaces@.len() as int, sources@),
                ) && titles_synced(*old(self), *final(self), seen, r),
    {
        let ghost first = *self;
        let seen = self.observe_titles(sources);
        let mut raw_changed = false;
        let mut stripped_changed = false;
        let mut publish: Vec<(usize, u64)> = Vec::new();
        let mut i: usize = 0;
        proof {
            assert(seen@.take(0) =~= Seq::<Observation>::empty());
            assert(refs(publish@) =~= Seq::<PaneRef>::empty());
        }
        while i < seen.len()
            invariant
                *self == (Session { terminals: self.terminals, ..first }),
                i <= seen@.len(),
                self.terminals@ == after_observations(first.terminals@, seen@.take(i as int)),
                (TitleChanges { raw_changed, stripped_changed }) == all_found(
                    first.terminals@,
                    seen@.take(i as int),
                ),
                refs(publish@) == to_publish(first.terminals@, seen@.take(i as int)),
            decreases seen@.len() - i,
        {
            let o = &seen[i];
            proof {
                assert(seen@.take(i + 1).drop_last() =~= seen@.take(i as int));
                assert(seen@.take(i + 1).last() == *o);
            }
            match self.find_terminal(o.terminal_id.as_str()) {
                Some(t) => {
                    let ghost before = self.terminals@;
                    let change = set_terminal_title(&mut self.terminals[t]);
                    proof {
                        assert(self.terminals@ =~= before.update(t as int, retitled(before[t as int])));
                    }
                    raw_changed = raw_changed || change.raw_changed;
                    stripped_changed = stripped_changed || change.stripped_changed;
                    if change.stripped_changed {
                        let ghost was = publish@;
                        publish.push((o.workspace, o.pane));
                        proof {
                            assert(refs(publish@) =~= refs(was).push((o.workspace as int, o.pane)));
                        }
                    }
                },
                None => {},
            }
            i = i + 1;
        }
        proof {
            assert(seen@.take(i as int) =~= seen@);
        }
        let ghost settled = *self;
        self.tell_panes(&publish);
        let changes = TitleChanges { raw_changed, stripped_changed };
        proof {
            let publishing = to_publish(first.terminals@, seen@);
            lemma_with_info_alike(settled, *self, publishing);
            crate::updates::lemma_told_alike(
                first.events@,
                self.events@,
                settled,
                *self,
                with_info(*self, publishing),
            );
            assert(titles_synced(first, *self, seen@, changes));
        }
        changes
    }
}

proof fn lemma_with_info_alike(a: Session, b: Session, panes: Seq<PaneRef>)
    requires
        crate::info::tells_alike(a, b),
    ensures
        with_info(a, panes) == with_info(b, panes),
        with_info(a, panes) == panes.filter(|x: PaneRef| has_info(a, x.0, x.1)),
    decreases panes.len(),
{
    reveal(Seq::filter);
    if panes.len() > 0 {
        lemma_with_info_alike(a, b, panes.drop_last());
        crate::info::lemma_tells_alike(a, b);
        let last = panes.last();
        assert(has_info(a, last.0, last.1) == has_info(b, last.0, last.1));
    }
}

/// Looking again finds nothing new: a terminal whose titles were taken over does not differ.
pub proof fn law_titles_settle(t: Terminal)
    ensures
        !raw_differs(retitled(t)),
        !stripped_differs(retitled(t)),
        retitled(t).state == t.state,
        retitled(t).hook_authority == t.hook_authority,
{
}

/// A title that changes in its progress marks alone counts as no new revision.
pub proof fn law_progress_marks_are_no_revision(t: Terminal)
    requires
        !stripped_differs(t),
    ensures
        retitled(t).revision == t.revision,
{
}

} // verus!
