//! Requests about agents.
//!
//! Which pane a target names, and what is written to a terminal, is outside work: the functions
//! here take what the target was resolved to, decide, and take what came of the writing.

use vstd::prelude::*;
use vstd::string::*;
use crate::focus::focus_moved;
use crate::info::{
    has_info, is_pane_info, told_panes, told_tabs, told_workspaces, PaneInfo,
};
use crate::response::{error, refusal, ApiError, Refusal, Response};
use crate::session::{
    tab_of_pane, Agent, AgentState, ForegroundJob, Pane, Session, Terminal,
};
use crate::text::{clone_opt_text, join3, opt_view, same_text};
use crate::updates::{refs, PaneRef};

verus! {

/// How long after a prompt's text its submitting key is sent, in milliseconds.
pub const PROMPT_SUBMIT_DELAY_MS: u64 = 300;

/// How many lines a reader gets without asking for a number, and at most.
pub const DEFAULT_READ_LINES: u32 = 80;

pub const MAX_READ_LINES: u32 = 1000;

#[derive(Debug)]
pub struct PromptParams {
    pub target: String,
    pub text: String,
    pub expected_terminal_id: Option<String>,
}

/// What a target was resolved to.
#[derive(Debug)]
pub struct Resolved {
    pub workspace: usize,
    pub tab: usize,
    pub pane: u64,
    pub terminal_id: String,
}

/// An agent: the name it goes by, and the pane it is in.
#[derive(Debug)]
pub struct AgentInfo {
    pub name: Option<String>,
    pub pane: PaneInfo,
}

/// A prompt that may be sent.
#[derive(Clone, Copy, Debug, PartialEq, Eq, Structural)]
pub struct PromptPlan {
    pub agent: Agent,
    /// The number of the agent's state changes before the prompt.
    pub baseline_state_change_seq: u64,
}

#[derive(Debug)]
pub struct Prompted {
    pub agent: AgentInfo,
    pub baseline_state_change_seq: u64,
}

#[derive(Clone, Copy, Debug, PartialEq, Eq, Structural)]
pub enum ReadFormat {
    Text,
    Ansi,
}

#[derive(Clone, Copy, Debug, PartialEq, Eq, Structural)]
pub enum ReadSource {
    Visible,
    Recent,
    RecentUnwrapped,
    Detection,
}

#[derive(Debug)]
pub struct ReadParams {
    pub target: String,
    pub source: ReadSource,
    pub format: ReadFormat,
    pub lines: Option<u32>,
}

/// The text of a terminal that is to be read.
#[derive(Clone, Copy, Debug, PartialEq, Eq, Structural)]
pub enum TextView {
    Visible { ansi: bool },
    Recent { ansi: bool, lines: u32 },
    RecentUnwrapped { ansi: bool, lines: u32 },
    /// What agents are recognised by; plain whatever the format.
    Detection,
}

#[derive(Debug)]
pub struct PaneRead {
    pub pane_id: String,
    pub workspace_id: String,
    pub tab_id: String,
    pub source: ReadSource,
    pub format: ReadFormat,
    pub text: String,
    pub revision: u64,
    pub truncated: bool,
}

/// How an agent's state is explained.
#[derive(Debug)]
pub enum Explain {
    /// The agent's hook reports its whole lifecycle: the screen is not looked at.
    SkippedForHook { label: String, state: AgentState },
    /// The screen is held against what is known of the agent.
    Evaluate { agent: Agent },
}

// ---------------------------------------------------------------------------------------------
// Readiness
// ---------------------------------------------------------------------------------------------

/// The first hint that says anything.
pub open spec fn first_hint(hints: Seq<Option<Agent>>) -> Option<Agent>
    decreases hints.len(),
{
    if hints.len() == 0 {
        None
    } else {
        match first_hint(hints.drop_last()) {
            Some(agent) => Some(agent),
            None => hints.last(),
        }
    }
}

/// The agent in the foreground: what the job was recognised as, else what its processes say.
pub open spec fn foreground_agent(job: ForegroundJob) -> Option<Agent> {
    match job.identified {
        Some(agent) => Some(agent),
        None => first_hint(job.hints@),
    }
}

pub open spec fn hosts(job: Option<ForegroundJob>, expected: Agent) -> bool {
    job matches Some(j) && foreground_agent(j) == Some(expected)
}

pub open spec fn agent_missing(target: Seq<char>) -> Refusal {
    refusal("agent_not_found"@, "agent target "@ + target + " not found"@)
}

pub open spec fn agent_unready(target: Seq<char>) -> Refusal {
    refusal("agent_not_ready"@, "agent "@ + target + " is not an active named agent"@)
}

pub open spec fn is_named(t: Terminal, target: Seq<char>) -> bool {
    opt_view(t.agent_name) == Some(target)
}

/// Why a prompt is not for the terminal its target led to.
pub open spec fn target_refusal(session: Session, params: PromptParams, at: Resolved) -> Option<Refusal> {
    match session.spec_terminal_of(at.workspace as int, at.pane) {
        None => Some(agent_missing(params.target@)),
        Some(t) => if !is_named(t, params.target@) {
            Some(agent_unready(params.target@))
        } else if params.expected_terminal_id matches Some(id) && id@ != at.terminal_id@ {
            Some(
                refusal(
                    "agent_target_changed"@,
                    "agent target no longer has the expected terminal_id"@,
                ),
            )
        } else {
            None
        },
    }
}

/// Why the agent in a terminal cannot take a prompt now.
pub open spec fn ready_refusal(t: Terminal, target: Seq<char>) -> Option<Refusal> {
    if t.known_agent is None || !is_named(t, target) || t.state == AgentState::Unknown {
        Some(agent_unready(target))
    } else if t.managed matches Some(m) && m.launch_pending {
        Some(agent_unready(target))
    } else if t.state == AgentState::Working {
        Some(
            refusal(
                "agent_working"@,
                "agent "@ + target + " is still working; wait before prompting"@,
            ),
        )
    } else if t.state == AgentState::Blocked {
        Some(
            refusal(
                "agent_blocked"@,
                "agent "@ + target
                    + " is blocked and needs user input before it can accept a prompt"@,
            ),
        )
    } else if t.managed matches Some(m) && !m.interactive_ready {
        Some(agent_unready(target))
    } else {
        match t.runtime {
            None => Some(agent_missing(target)),
            Some(r) => if r.exit_pending || !hosts(r.job, t.known_agent->Some_0) {
                Some(
                    refusal(
                        "agent_not_ready"@,
                        "agent "@ + target
                            + " is no longer the pane foreground process or has a pending exit"@,
                    ),
                )
            } else {
                None
            },
        }
    }
}

/// Why a prompt is not sent.
pub open spec fn prompt_refusal(session: Session, params: PromptParams, at: Resolved) -> Option<Refusal> {
    match session.spec_terminal_of(at.workspace as int, at.pane) {
        None => Some(agent_missing(params.target@)),
        Some(t) => ready_refusal(t, params.target@),
    }
}

/// Whether there is an agent to speak of in a terminal.
pub open spec fn has_agent(t: Terminal) -> bool {
    t.agent_label is Some || t.agent_name is Some
}

pub open spec fn has_agent_info(session: Session, at: PaneRef) -> bool {
    session.spec_terminal_of(at.0, at.1) matches Some(t) && has_agent(t)
}

pub open spec fn is_agent_info(info: AgentInfo, session: Session, at: PaneRef) -> bool {
    let t = session.spec_terminal_of(at.0, at.1)->Some_0;
    &&& info.name == t.agent_name
    &&& is_pane_info(info.pane, session, at.0, at.1)
}

/// The panes with agents, workspace by workspace.
pub open spec fn agent_panes(session: Session) -> Seq<PaneRef> {
    told_workspaces(session, session.workspaces@.len() as int).filter(
        |at: PaneRef| has_agent_info(session, at),
    )
}

pub open spec fn are_agent_infos(infos: Seq<AgentInfo>, session: Session, at: Seq<PaneRef>) -> bool {
    &&& infos.len() == at.len()
    &&& forall|i: int| 0 <= i < infos.len() ==> is_agent_info(#[trigger] infos[i], session, at[i])
}

/// The name of a state.
pub open spec fn state_label(state: AgentState) -> Seq<char> {
    match state {
        AgentState::Idle => "idle"@,
        AgentState::Working => "working"@,
        AgentState::Blocked => "blocked"@,
        AgentState::Unknown => "unknown"@,
    }
}

pub fn agent_state_label(state: AgentState) -> (r: &'static str)
    ensures
        r@ == state_label(state),
{
    match state {
        AgentState::Idle => "idle",
        AgentState::Working => "working",
        AgentState::Blocked => "blocked",
        AgentState::Unknown => "unknown",
    }
}

/// Whether the expected agent is in the foreground.
pub fn runtime_hosts_agent(job: &Option<ForegroundJob>, expected: Agent) -> (r: bool)
    ensures
        r == hosts(*job, expected),
{
    match job {
        Some(job) => {
            let found: Option<Agent> = match job.identified {
                Some(agent) => Some(agent),
                None => hinted(&job.hints),
            };
            match found {
                Some(agent) => agent == expected,
                None => false,
            }
        },
        None => false,
    }
}

fn hinted(hints: &Vec<Option<Agent>>) -> (r: Option<Agent>)
    ensures
        r == first_hint(hints@),
{
    let mut found: Option<Agent> = None;
    let mut i: usize = 0;
    while i < hints.len()
        invariant
            i <= hints@.len(),
            found == first_hint(hints@.take(i as int)),
        decreases hints@.len() - i,
    {
        proof {
            assert(hints@.take(i + 1).drop_last() =~= hints@.take(i as int));
        }
        if found.is_none() {
            found = hints[i];
        }
        i = i + 1;
    }
    proof {
        assert(hints@.take(i as int) =~= hints@);
    }
    found
}

pub fn agent_not_found(target: &str) -> (e: ApiError)
    ensures
        e@ == agent_missing(target@),
{
    ApiError { code: "agent_not_found", message: join3("agent target ", target, " not found") }
}

pub fn agent_not_ready(target: &str) -> (e: ApiError)
    ensures
        e@ == agent_unready(target@),
{
    ApiError {
        code: "agent_not_ready",
        message: join3("agent ", target, " is not an active named agent"),
    }
}

fn named(terminal: &Terminal, target: &str) -> (r: bool)
    ensures
        r == is_named(*terminal, target@),
{
    match &terminal.agent_name {
        Some(name) => same_text(name.as_str(), target),
        None => false,
    }
}

fn check_ready(t: &Terminal, target: &str) -> (r: Result<Agent, ApiError>)
    ensures
        match r {
            Ok(agent) => ready_refusal(*t, target@) is None && t.known_agent == Some(agent),
            Err(e) => ready_refusal(*t, target@) == Some(e@),
        },
{
    let agent = match t.known_agent {
        Some(agent) => agent,
        None => {
            return Err(agent_not_ready(target));
        },
    };
    if !named(t, target) || t.state == AgentState::Unknown {
        return Err(agent_not_ready(target));
    }
    match t.managed {
        Some(managed) => {
            if managed.launch_pending {
                return Err(agent_not_ready(target));
            }
        },
        None => {},
    }
    if t.state == AgentState::Working {
        return Err(
            ApiError {
                code: "agent_working",
                message: join3("agent ", target, " is still working; wait before prompting"),
            },
        );
    }
    if t.state == AgentState::Blocked {
        return Err(
            ApiError {
                code: "agent_blocked",
                message: join3(
                    "agent ",
                    target,
                    " is blocked and needs user input before it can accept a prompt",
                ),
            },
        );
    }
    match t.managed {
        Some(managed) => {
            if !managed.interactive_ready {
                return Err(agent_not_ready(target));
            }
        },
        None => {},
    }
    match &t.runtime {
        None => Err(agent_not_found(target)),
        Some(runtime) => {
            if runtime.exit_pending || !runtime_hosts_agent(&runtime.job, agent) {
                return Err(
                    ApiError {
                        code: "agent_not_ready",
                        message: join3(
                            "agent ",
                            target,
                            " is no longer the pane foreground process or has a pending exit",
                        ),
                    },
                );
            }
            Ok(agent)
        },
    }
}

/// What is sent for a prompt: the text, behind the mark of the focus for an agent that waits for one.
pub open spec fn are_prompt_bytes(
    agent: Agent,
    focus: Result<Vec<u8>, String>,
    text: Vec<u8>,
    r: Result<Vec<u8>, ApiError>,
) -> bool {
    match (agent, focus, r) {
        (Agent::GithubCopilot, Err(problem), Err(e)) => e@ == refusal(
            "agent_prompt_failed"@,
            problem@,
        ),
        (Agent::GithubCopilot, Ok(mark), Ok(bytes)) => bytes@ == mark@ + text@,
        (Agent::GithubCopilot, _, _) => false,
        (_, _, Ok(bytes)) => bytes == text,
        (_, _, Err(_)) => false,
    }
}

/// What is written for a prompt. One agent takes input only while it believes it has the focus,
/// so it is told so first.
pub fn prompt_bytes(agent: Agent, focus: Result<Vec<u8>, String>, text: Vec<u8>) -> (r: Result<
    Vec<u8>,
    ApiError,
>)
    ensures
        are_prompt_bytes(agent, focus, text, r),
{
    if agent == Agent::GithubCopilot {
        match focus {
            Ok(mark) => {
                let mut bytes = mark;
                let mut text = text;
                bytes.append(&mut text);
                Ok(bytes)
            },
            Err(problem) => Err(ApiError { code: "agent_prompt_failed", message: problem }),
        }
    } else {
        Ok(text)
    }
}

/// The text to read, as asked for.
pub open spec fn view_of(params: ReadParams) -> TextView {
    let asked = match params.lines {
        Some(n) => n,
        None => DEFAULT_READ_LINES,
    };
    let lines = if asked <= MAX_READ_LINES {
        asked
    } else {
        MAX_READ_LINES
    };
    let ansi = params.format == ReadFormat::Ansi;
    match params.source {
        ReadSource::Visible => TextView::Visible { ansi },
        ReadSource::Recent => TextView::Recent { ansi, lines },
        ReadSource::RecentUnwrapped => TextView::RecentUnwrapped { ansi, lines },
        ReadSource::Detection => TextView::Detection,
    }
}

fn text_view(params: &ReadParams) -> (r: TextView)
    ensures
        r == view_of(*params),
{
    let asked: u32 = match params.lines {
        Some(n) => n,
        None => DEFAULT_READ_LINES,
    };
    let lines: u32 = if asked <= MAX_READ_LINES {
        asked
    } else {
        MAX_READ_LINES
    };
    let ansi = params.format == ReadFormat::Ansi;
    match params.source {
        ReadSource::Visible => TextView::Visible { ansi },
        ReadSource::Recent => TextView::Recent { ansi, lines },
        ReadSource::RecentUnwrapped => TextView::RecentUnwrapped { ansi, lines },
        ReadSource::Detection => TextView::Detection,
    }
}

/// The process side of the terminal that a target led to.
pub open spec fn has_runtime(session: Session, at: Resolved) -> bool {
    session.spec_terminal_of(at.workspace as int, at.pane) matches Some(t) && t.runtime is Some
}

/// How an agent is explained, or why it cannot be.
pub open spec fn explains(
    session: Session,
    target: Seq<char>,
    at: Resolved,
    r: Result<Explain, Refusal>,
) -> bool {
    match session.spec_terminal_of(at.workspace as int, at.pane) {
        None => r == Err::<Explain, Refusal>(agent_missing(target)),
        Some(t) => if t.runtime is None {
            r == Err::<Explain, Refusal>(agent_missing(target))
        } else if t.full_lifecycle_hook {
            r matches Ok(Explain::SkippedForHook { label, state }) && state == t.state && label@
                == match t.agent_label {
                Some(label) => label@,
                None => "unknown"@,
            }
        } else {
            match (t.known_agent, t.detected_agent) {
                (Some(agent), _) => r == Ok::<Explain, Refusal>(Explain::Evaluate { agent }),
                (None, Some(agent)) => r == Ok::<Explain, Refusal>(Explain::Evaluate { agent }),
                (None, None) => r == Err::<Explain, Refusal>(
                    refusal(
                        "agent_explain_unavailable"@,
                        "agent target "@ + target + " does not have a detected agent label"@,
                    ),
                ),
            }
        },
    }
}

/// Why keys are not sent.
pub open spec fn keys_refusal(session: Session, target: Seq<char>, at: Resolved) -> Option<Refusal> {
    match session.spec_terminal_of(at.workspace as int, at.pane) {
        None => if at.workspace < session.workspaces@.len()
            && session.workspaces@[at.workspace as int].spec_pane(at.pane) is Some {
            Some(agent_unready(target))
        } else {
            Some(agent_missing(target))
        },
        Some(t) => if t.known_agent is None {
            Some(agent_unready(target))
        } else {
            match t.runtime {
                None => Some(agent_missing(target)),
                Some(r) => if !hosts(r.job, t.known_agent->Some_0) {
                    Some(agent_unready(target))
                } else {
                    None
                },
            }
        },
    }
}

/// The keys' bytes, one after another.
pub open spec fn flattened(keys: Seq<Vec<u8>>) -> Seq<u8>
    decreases keys.len(),
{
    if keys.len() == 0 {
        Seq::empty()
    } else {
        flattened(keys.drop_last()) + keys.last()@
    }
}

/// What is sent for keys: one after another, unless there is one that cannot be sent.
pub open spec fn are_key_bytes(
    encoded: Result<Vec<Vec<u8>>, String>,
    r: Result<Vec<u8>, ApiError>,
) -> bool {
    match (encoded, r) {
        (Ok(keys), Ok(bytes)) => bytes@ == flattened(keys@),
        (Err(key), Err(e)) => e@ == refusal("invalid_key"@, "unsupported key "@ + key@),
        _ => false,
    }
}

/// What is written for some keys: all of them at once, and nothing where one is not known.
pub fn key_bytes(encoded: Result<Vec<Vec<u8>>, String>) -> (r: Result<Vec<u8>, ApiError>)
    ensures
        are_key_bytes(encoded, r),
{
    match encoded {
        Ok(keys) => {
            let mut bytes: Vec<u8> = Vec::new();
            let mut i: usize = 0;
            while i < keys.len()
                invariant
                    i <= keys@.len(),
                    bytes@ == flattened(keys@.take(i as int)),
                decreases keys@.len() - i,
            {
                let ghost before = bytes@;
                proof {
                    assert(keys@.take(i + 1).drop_last() =~= keys@.take(i as int));
                }
                let key = &keys[i];
                let mut j: usize = 0;
                proof {
                    assert(bytes@ =~= before + key@.take(0));
                }
                while j < key.len()
                    invariant
                        j <= key@.len(),
                        bytes@ == before + key@.take(j as int),
                    decreases key@.len() - j,
                {
                    bytes.push(key[j]);
                    j = j + 1;
                    proof {
                        assert(bytes@ =~= before + key@.take(j as int));
                    }
                }
                proof {
                    assert(key@.take(j as int) =~= key@);
                }
                i = i + 1;
            }
            proof {
                assert(keys@.take(i as int) =~= keys@);
            }
            Ok(bytes)
        },
        Err(key) => {
            let mut message = "unsupported key ".to_owned();
            message.append(key.as_str());
            Err(ApiError { code: "invalid_key", message })
        },
    }
}

/// The reply once bytes were written, or could not be.
pub fn sent_reply(id: String, code: &'static str, sent: Result<(), String>) -> (r: Response<()>)
    ensures
        r.id == id,
        r.refusal() == match sent {
            Ok(()) => None,
            Err(problem) => Some(refusal(code@, problem@)),
        },
{
    match sent {
        Ok(()) => Response { id, body: Ok(()) },
        Err(problem) => Response { id, body: Err(ApiError { code, message: problem }) },
    }
}

/// What a request for an agent is answered.
pub open spec fn agent_get_outcome(
    session: Session,
    target: Seq<char>,
    resolved: Result<Resolved, ApiError>,
    body: Result<AgentInfo, ApiError>,
) -> bool {
    match (resolved, body) {
        (Err(refused), Err(e)) => e == refused,
        (Ok(at), Ok(info)) => has_agent_info(session, (at.workspace as int, at.pane))
            && is_agent_info(info, session, (at.workspace as int, at.pane)),
        (Ok(at), Err(e)) => !has_agent_info(session, (at.workspace as int, at.pane)) && e@
            == agent_missing(target),
        _ => false,
    }
}

/// What a request to focus an agent does.
pub open spec fn agent_focus_outcome(
    old: Session,
    new: Session,
    target: Seq<char>,
    resolved: Result<Resolved, ApiError>,
    body: Result<AgentInfo, ApiError>,
) -> bool {
    match (resolved, body) {
        (Err(refused), Err(e)) => e == refused && new == old,
        (Ok(at), Ok(info)) => {
            let ws = at.workspace as int;
            &&& has_agent_info(old, (ws, at.pane))
            &&& focus_moved(
                old,
                new,
                ws,
                tab_of_pane(old.workspaces@[ws].tabs@, at.pane)->Some_0,
                at.pane,
            )
            &&& is_agent_info(info, new, (ws, at.pane))
        },
        (Ok(at), Err(e)) => !has_agent_info(old, (at.workspace as int, at.pane))
            && e@ == agent_missing(target) && new == old,
        _ => false,
    }
}

/// Whether a prompt is gone on with, or why not.
pub open spec fn prompt_begun(
    session: Session,
    params: PromptParams,
    resolved: Result<Resolved, ApiError>,
    r: Result<Resolved, ApiError>,
) -> bool {
    match (resolved, r) {
        (_, Err(e)) if params.text@.len() == 0 => e@ == refusal(
            "empty_agent_prompt"@,
            "agent prompt must not be empty"@,
        ),
        (_, Ok(_)) if params.text@.len() == 0 => false,
        (Err(refused), Err(e)) => e == refused,
        (Ok(at), Ok(kept)) => kept == at && target_refusal(session, params, at) is None,
        (Ok(at), Err(e)) => target_refusal(session, params, at) == Some(e@),
        _ => false,
    }
}

/// `new` is `old` after an agent was reconciled, which may have changed it.
pub open spec fn reconciled_told(
    old: Session,
    new: Session,
    at: Resolved,
    changed: bool,
) -> bool {
    if changed {
        &&& new == (Session {
            events: new.events,
            save_scheduled: true,
            ..old
        })
        &&& if has_info(old, at.workspace as int, at.pane) {
            &&& new.events@.len() == old.events@.len() + 1
            &&& new.events@ == old.events@.push(new.events@.last())
            &&& crate::updates::tells_pane(
                new.events@.last(),
                old,
                (at.workspace as int, at.pane),
            )
        } else {
            new.events == old.events
        }
    } else {
        new == old
    }
}

/// What a prompt comes to, or why it is refused.
pub open spec fn prompt_planned(
    session: Session,
    params: PromptParams,
    at: Resolved,
    r: Result<PromptPlan, ApiError>,
) -> bool {
    match r {
        Ok(plan) => {
            &&& prompt_refusal(session, params, at) is None
            &&& session.spec_terminal_of(at.workspace as int, at.pane) matches Some(t)
                && t.known_agent == Some(plan.agent) && plan.baseline_state_change_seq
                == match t.state_change_seq {
                Some(n) => n,
                None => 0,
            }
        },
        Err(e) => prompt_refusal(session, params, at) == Some(e@),
    }
}

/// What a prompt is answered once it was sent.
pub open spec fn prompt_outcome(
    session: Session,
    params: PromptParams,
    at: Resolved,
    plan: PromptPlan,
    sent: Result<(), String>,
    body: Result<Prompted, ApiError>,
) -> bool {
    match (sent, body) {
        (Err(problem), Err(e)) => e@ == refusal("agent_prompt_failed"@, problem@),
        (Ok(()), Err(e)) => !has_agent_info(session, (at.workspace as int, at.pane)) && e@
            == agent_missing(params.target@),
        (Ok(()), Ok(prompted)) => {
            &&& has_agent_info(session, (at.workspace as int, at.pane))
            &&& is_agent_info(prompted.agent, session, (at.workspace as int, at.pane))
            &&& prompted.baseline_state_change_seq == plan.baseline_state_change_seq
        },
        _ => false,
    }
}

/// What is read for a request, or why nothing is.
pub open spec fn read_planned(
    session: Session,
    params: ReadParams,
    resolved: Result<Resolved, ApiError>,
    r: Result<(Resolved, TextView), ApiError>,
) -> bool {
    match (resolved, r) {
        (Err(refused), Err(e)) => e == refused,
        (Ok(at), Ok((kept, view))) => kept == at && has_runtime(session, at) && view
            == view_of(params),
        (Ok(at), Err(e)) => !has_runtime(session, at) && e@ == agent_missing(params.target@),
        _ => false,
    }
}

/// What a request to read is answered with the text that was read.
pub open spec fn read_outcome(
    session: Session,
    params: ReadParams,
    at: Resolved,
    text: String,
    body: Result<PaneRead, ApiError>,
) -> bool {
    body matches Ok(read) && {
        let w = session.workspaces@[at.workspace as int];
        &&& read.pane_id == match w.spec_pane(at.pane) {
            Some(p) => p.public_id,
            None => params.target,
        }
        &&& read.workspace_id == w.id
        &&& read.tab_id == w.tabs@[at.tab as int].public_id
        &&& read.source == params.source
        &&& read.format == params.format
        &&& read.text == text
        &&& read.revision == 0
        &&& !read.truncated
    }
}

/// Where text is sent, or why it is not.
pub open spec fn send_planned(
    session: Session,
    target: Seq<char>,
    resolved: Result<Resolved, ApiError>,
    r: Result<Resolved, ApiError>,
) -> bool {
    match (resolved, r) {
        (Err(refused), Err(e)) => e == refused,
        (Ok(at), Ok(kept)) => kept == at && has_runtime(session, at),
        (Ok(at), Err(e)) => !has_runtime(session, at) && e@ == agent_missing(target),
        _ => false,
    }
}

/// Where keys are sent, or why they are not.
pub open spec fn keys_planned(
    session: Session,
    target: Seq<char>,
    resolved: Result<Resolved, ApiError>,
    r: Result<Resolved, ApiError>,
) -> bool {
    match (resolved, r) {
        (Err(refused), Err(e)) => e == refused,
        (Ok(at), Ok(kept)) => kept == at && keys_refusal(session, target, at) is None,
        (Ok(at), Err(e)) => keys_refusal(session, target, at) == Some(e@),
        _ => false,
    }
}

impl Session {
    /// What there is to say of the agent in a pane.
    pub fn agent_info(&self, ws: usize, pane: u64) -> (r: Option<AgentInfo>)
        ensures
            match r {
                Some(info) => has_agent_info(*self, (ws as int, pane)) && is_agent_info(
                    info,
                    *self,
                    (ws as int, pane),
                ),
                None => !has_agent_info(*self, (ws as int, pane)),
            },
    {
        let terminal = match self.terminal_of(ws, pane) {
            Some(terminal) => terminal,
            None => {
                return None;
            },
        };
        if terminal.agent_label.is_none() && terminal.agent_name.is_none() {
            return None;
        }
        match self.pane_info(ws, pane) {
            Some(info) => Some(
                AgentInfo { name: clone_opt_text(&terminal.agent_name), pane: info },
            ),
            None => None,
        }
    }

    fn push_pane_refs(&self, ws: usize, panes: &Vec<Pane>, out: &mut Vec<(usize, u64)>)
        ensures
            refs(final(out)@) == refs(old(out)@) + told_panes(*self, ws as int, panes@),
    {
        let ghost start = refs(out@);
        let mut i: usize = 0;
        proof {
            assert(refs(out@) =~= start + told_panes(*self, ws as int, panes@.take(0)));
        }
        while i < panes.len()
            invariant
                i <= panes@.len(),
                refs(out@) == start + told_panes(*self, ws as int, panes@.take(i as int)),
            decreases panes@.len() - i,
        {
            let ghost before = out@;
            let ghost so_far = told_panes(*self, ws as int, panes@.take(i as int));
            proof {
                assert(panes@.take(i + 1).drop_last() =~= panes@.take(i as int));
                assert(panes@.take(i + 1).last() == panes@[i as int]);
            }
            if self.terminal_of(ws, panes[i].id).is_some() {
                out.push((ws, panes[i].id));
                proof {
                    assert(refs(out@) =~= refs(before).push((ws as int, panes@[i as int].id)));
                    assert(refs(out@) =~= start + so_far.push((ws as int, panes@[i as int].id)));
                }
            }
            i = i + 1;
        }
        proof {
            assert(panes@.take(i as int) =~= panes@);
        }
    }

    /// The panes of which there is something to say.
    fn pane_refs(&self) -> (r: Vec<(usize, u64)>)
        ensures
            refs(r@) == told_workspaces(*self, self.workspaces@.len() as int),
    {
        let mut out: Vec<(usize, u64)> = Vec::new();
        let mut w: usize = 0;
        proof {
            assert(refs(out@) =~= told_workspaces(*self, 0));
        }
        while w < self.workspaces.len()
            invariant
                w <= self.workspaces@.len(),
                refs(out@) == told_workspaces(*self, w as int),
            decreases self.workspaces@.len() - w,
        {
            let ghost done = refs(out@);
            let tabs = &self.workspaces[w].tabs;
            let mut t: usize = 0;
            proof {
                assert(refs(out@) =~= done + told_tabs(*self, w as int, tabs@.take(0)));
            }
            while t < tabs.len()
                invariant
                    t <= tabs@.len(),
                    refs(out@) == done + told_tabs(*self, w as int, tabs@.take(t as int)),
                decreases tabs@.len() - t,
            {
                let ghost so_far = refs(out@);
                self.push_pane_refs(w, &tabs[t].panes, &mut out);
                t = t + 1;
                proof {
                    assert(tabs@.take(t as int).drop_last() =~= tabs@.take(t - 1));
                    assert(tabs@.take(t as int).last() == tabs@[t - 1]);
                    assert(refs(out@) =~= done + told_tabs(*self, w as int, tabs@.take(t as int)));
                }
            }
            proof {
                assert(tabs@.take(t as int) =~= tabs@);
            }
            w = w + 1;
        }
        out
    }

    /// What there is to say of all agents.
    pub fn collect_agent_infos(&self) -> (r: Vec<AgentInfo>)
        ensures
            are_agent_infos(r@, *self, agent_panes(*self)),
    {
        let panes = self.pane_refs();
        let ghost all = refs(panes@);
        let ghost p = |at: PaneRef| has_agent_info(*self, at);
        let mut infos: Vec<AgentInfo> = Vec::new();
        let mut i: usize = 0;
        proof {
            assert(all.take(0) =~= Seq::<PaneRef>::empty());
            crate::search::lemma_filter_none(p);
        }
        while i < panes.len()
            invariant
                all == refs(panes@),
                p == (|at: PaneRef| has_agent_info(*self, at)),
                i <= panes@.len(),
                are_agent_infos(infos@, *self, all.take(i as int).filter(p)),
            decreases panes@.len() - i,
        {
            let (ws, pane): (usize, u64) = panes[i];
            proof {
                crate::search::lemma_filter_step(all, p, i as int);
                assert(all[i as int] == (ws as int, pane));
            }
            match self.agent_info(ws, pane) {
                Some(info) => {
                    infos.push(info);
                },
                None => {},
            }
            i = i + 1;
        }
        proof {
            assert(all.take(i as int) =~= all);
        }
        infos
    }

    pub fn handle_agent_list(&self, id: String) -> (r: Response<Vec<AgentInfo>>)
        ensures
            r.id == id,
            r.body matches Ok(infos) && are_agent_infos(infos@, *self, agent_panes(*self)),
    {
        Response { id, body: Ok(self.collect_agent_infos()) }
    }

    pub fn handle_agent_get(&self, id: String, target: &str, resolved: Result<Resolved, ApiError>) -> (r:
        Response<AgentInfo>)
        ensures
            r.id == id,
            agent_get_outcome(*self, target@, resolved, r.body),
    {
        match resolved {
            Ok(at) => match self.agent_info(at.workspace, at.pane) {
                Some(info) => Response { id, body: Ok(info) },
                None => Response { id, body: Err(agent_not_found(target)) },
            },
            Err(e) => Response { id, body: Err(e) },
        }
    }

    /// Focus the pane an agent is in, which counts as looking at it.
    pub fn handle_agent_focus(
        &mut self,
        id: String,
        target: &str,
        resolved: Result<Resolved, ApiError>,
    ) -> (r: Response<AgentInfo>)
        ensures
            r.id == id,
            agent_focus_outcome(*old(self), *final(self), target@, resolved, r.body),
    {
        let at = match resolved {
            Ok(at) => at,
            Err(e) => {
                return Response { id, body: Err(e) };
            },
        };
        if self.agent_info(at.workspace, at.pane).is_none() {
            return Response { id, body: Err(agent_not_found(target)) };
        }
        let _ = self.focus_pane_in_workspace(at.workspace, at.pane);
        proof {
            let ws = at.workspace as int;
            let tab = tab_of_pane(old(self).workspaces@[ws].tabs@, at.pane)->Some_0;
            lemma_focus_keeps_terminal(*old(self), *self, ws, tab, at.pane);
        }
        match self.agent_info(at.workspace, at.pane) {
            Some(info) => Response { id, body: Ok(info) },
            None => Response { id, body: Err(agent_not_found(target)) },
        }
    }

    /// The first half of a prompt: whether it is for the terminal its target led to. Afterwards a
    /// managed agent in the terminal is brought up to date.
    pub fn begin_agent_prompt(&self, params: &PromptParams, resolved: Result<Resolved, ApiError>) -> (r:
        Result<Resolved, ApiError>)
        ensures
            prompt_begun(*self, *params, resolved, r),
    {
        if params.text.as_str().is_empty() {
            return Err(error("empty_agent_prompt", "agent prompt must not be empty"));
        }
        let at = match resolved {
            Ok(at) => at,
            Err(e) => {
                return Err(e);
            },
        };
        let terminal = match self.terminal_of(at.workspace, at.pane) {
            Some(terminal) => terminal,
            None => {
                return Err(agent_not_found(params.target.as_str()));
            },
        };
        if !named(terminal, params.target.as_str()) {
            return Err(agent_not_ready(params.target.as_str()));
        }
        let moved = match &params.expected_terminal_id {
            Some(expected) => !same_text(expected.as_str(), at.terminal_id.as_str()),
            None => false,
        };
        if moved {
            return Err(
                error(
                    "agent_target_changed",
                    "agent target no longer has the expected terminal_id",
                ),
            );
        }
        Ok(at)
    }

    /// Take note that bringing a managed agent up to date changed something.
    pub fn agent_reconciled(&mut self, at: &Resolved, changed: bool)
        ensures
            reconciled_told(*old(self), *final(self), *at, changed),
    {
        if changed {
            self.emit_pane_updated(at.workspace, at.pane);
            self.save_scheduled = true;
        }
    }

    /// The second half of a prompt: whether the agent can take it now. What is seen on the screen
    /// and in the foreground decides readiness here, never who a receipt is from.
    pub fn plan_agent_prompt(&self, params: &PromptParams, at: &Resolved) -> (r: Result<
        PromptPlan,
        ApiError,
    >)
        ensures
            prompt_planned(*self, *params, *at, r),
    {
        let terminal = match self.terminal_of(at.workspace, at.pane) {
            Some(terminal) => terminal,
            None => {
                return Err(agent_not_found(params.target.as_str()));
            },
        };
        match check_ready(terminal, params.target.as_str()) {
            Ok(agent) => Ok(
                PromptPlan {
                    agent,
                    baseline_state_change_seq: match terminal.state_change_seq {
                        Some(n) => n,
                        None => 0,
                    },
                },
            ),
            Err(e) => Err(e),
        }
    }

    /// The end of a prompt, once it was written, or could not be.
    pub fn finish_agent_prompt(
        &self,
        id: String,
        params: &PromptParams,
        at: &Resolved,
        plan: PromptPlan,
        sent: Result<(), String>,
    ) -> (r: Response<Prompted>)
        ensures
            r.id == id,
            prompt_outcome(*self, *params, *at, plan, sent, r.body),
    {
        match sent {
            Err(problem) => Response {
                id,
                body: Err(ApiError { code: "agent_prompt_failed", message: problem }),
            },
            Ok(()) => match self.agent_info(at.workspace, at.pane) {
                Some(agent) => Response {
                    id,
                    body: Ok(
                        Prompted {
                            agent,
                            baseline_state_change_seq: plan.baseline_state_change_seq,
                        },
                    ),
                },
                None => Response { id, body: Err(agent_not_found(params.target.as_str())) },
            },
        }
    }

    fn runtime_there(&self, at: &Resolved) -> (r: bool)
        ensures
            r == has_runtime(*self, *at),
    {
        match self.terminal_of(at.workspace, at.pane) {
            Some(terminal) => terminal.runtime.is_some(),
            None => false,
        }
    }

    /// Which text is to be read, or why none.
    pub fn plan_agent_read(&self, params: &ReadParams, resolved: Result<Resolved, ApiError>) -> (r:
        Result<(Resolved, TextView), ApiError>)
        ensures
            read_planned(*self, *params, resolved, r),
    {
        match resolved {
            Ok(at) => {
                if self.runtime_there(&at) {
                    Ok((at, text_view(params)))
                } else {
                    Err(agent_not_found(params.target.as_str()))
                }
            },
            Err(e) => Err(e),
        }
    }

    /// The reply to a read, once the text was read.
    pub fn finish_agent_read(&self, id: String, params: &ReadParams, at: &Resolved, text: String) -> (r:
        Response<PaneRead>)
        requires
            at.workspace < self.workspaces@.len(),
            at.tab < self.workspaces@[at.workspace as int].tabs@.len(),
        ensures
            r.id == id,
            read_outcome(*self, *params, *at, text, r.body),
    {
        let w = &self.workspaces[at.workspace];
        let pane_id = match w.pane_state(at.pane) {
            Some(p) => p.public_id.clone(),
            None => params.target.clone(),
        };
        Response {
            id,
            body: Ok(
                PaneRead {
                    pane_id,
                    workspace_id: w.id.clone(),
                    tab_id: w.tabs[at.tab].public_id.clone(),
                    source: params.source,
                    format: params.format,
                    text,
                    revision: 0,
                    truncated: false,
                },
            ),
        }
    }

    /// How an agent's state is to be explained, or why it cannot be.
    pub fn plan_agent_explain(&self, target: &str, resolved: Result<Resolved, ApiError>) -> (r: Result<
        Explain,
        ApiError,
    >)
        ensures
            match resolved {
                Err(refused) => r == Err::<Explain, ApiError>(refused),
                Ok(at) => explains(
                    *self,
                    target@,
                    at,
                    match r {
                        Ok(explain) => Ok(explain),
                        Err(e) => Err(e@),
                    },
                ),
            },
    {
        let at = match resolved {
            Ok(at) => at,
            Err(e) => {
                return Err(e);
            },
        };
        let terminal = match self.terminal_of(at.workspace, at.pane) {
            Some(terminal) => terminal,
            None => {
                return Err(agent_not_found(target));
            },
        };
        if terminal.runtime.is_none() {
            return Err(agent_not_found(target));
        }
        if terminal.full_lifecycle_hook {
            let label = match &terminal.agent_label {
                Some(label) => label.clone(),
                None => "unknown".to_owned(),
            };
            return Ok(Explain::SkippedForHook { label, state: terminal.state });
        }
        match terminal.known_agent {
            Some(agent) => Ok(Explain::Evaluate { agent }),
            None => match terminal.detected_agent {
                Some(agent) => Ok(Explain::Evaluate { agent }),
                None => Err(
                    ApiError {
                        code: "agent_explain_unavailable",
                        message: join3(
                            "agent target ",
                            target,
                            " does not have a detected agent label",
                        ),
                    },
                ),
            },
        }
    }

    /// Whether text may be written to the terminal a target led to.
    pub fn plan_agent_send(&self, target: &str, resolved: Result<Resolved, ApiError>) -> (r: Result<
        Resolved,
        ApiError,
    >)
        ensures
            send_planned(*self, target@, resolved, r),
    {
        match resolved {
            Ok(at) => {
                if self.runtime_there(&at) {
                    Ok(at)
                } else {
                    Err(agent_not_found(target))
                }
            },
            Err(e) => Err(e),
        }
    }

    /// Whether keys may be sent to the agent a target led to.
    pub fn plan_agent_send_keys(&self, target: &str, resolved: Result<Resolved, ApiError>) -> (r:
        Result<Resolved, ApiError>)
        ensures
            keys_planned(*self, target@, resolved, r),
    {
        let at = match resolved {
            Ok(at) => at,
            Err(e) => {
                return Err(e);
            },
        };
        let terminal = match self.terminal_of(at.workspace, at.pane) {
            Some(terminal) => terminal,
            None => {
                let pane_there = at.workspace < self.workspaces.len()
                    && self.workspaces[at.workspace].pane_state(at.pane).is_some();
                return if pane_there {
                    Err(agent_not_ready(target))
                } else {
                    Err(agent_not_found(target))
                };
            },
        };
        let agent = match terminal.known_agent {
            Some(agent) => agent,
            None => {
                return Err(agent_not_ready(target));
            },
        };
        match &terminal.runtime {
            None => Err(agent_not_found(target)),
            Some(runtime) => if runtime_hosts_agent(&runtime.job, agent) {
                Ok(at)
            } else {
                Err(agent_not_ready(target))
            },
        }
    }
}

/// Moving the focus leaves a pane with the same terminal.
pub proof fn lemma_focus_keeps_terminal(before: Session, after: Session, ws: int, tab: int, pane: u64)
    requires
        0 <= ws < before.workspaces@.len(),
        tab_of_pane(before.workspaces@[ws].tabs@, pane) == Some(tab),
        focus_moved(before, after, ws, tab, pane),
        before.spec_terminal_of(ws, pane) is Some,
    ensures
        after.spec_terminal_of(ws, pane) == before.spec_terminal_of(ws, pane),
{
    broadcast use crate::search::lemma_first_where;

    let old_tabs = before.workspaces@[ws].tabs@;
    let new_tabs = after.workspaces@[ws].tabs@;
    let old_panes = old_tabs[tab].panes@;
    let new_panes = new_tabs[tab].panes@;
    let p = crate::session::pane_at(old_panes, pane)->Some_0;
    assert(new_panes.len() == old_panes.len());
    assert(forall|j: int|
        0 <= j < old_panes.len() ==> (#[trigger] new_panes[j]).id == old_panes[j].id
            && new_panes[j].terminal_id == old_panes[j].terminal_id);
    assert(crate::session::pane_at(new_panes, pane) == Some(p)) by {
        assert(new_panes[p].id == pane);
        let q = crate::session::pane_at(new_panes, pane)->Some_0;
        if q < p {
            assert(old_panes[q].id == new_panes[q].id);
        }
        if p < q {
            assert(new_panes[p].id != pane);
        }
    }
    assert(tab_of_pane(new_tabs, pane) == Some(tab)) by {
        assert(crate::session::pane_at(new_tabs[tab].panes@, pane) is Some);
        let t = tab_of_pane(new_tabs, pane)->Some_0;
        if t < tab {
            assert(new_tabs[t] == old_tabs[t]);
            assert(crate::session::pane_at(old_tabs[t].panes@, pane) is None);
        }
    }
}

/// A prompt is sent only to an agent that goes by the target's name, is known and idle, is not
/// being launched or waiting for an exit to be handled, and is in the foreground of its terminal.
pub proof fn law_prompts_reach_only_ready_agents(session: Session, params: PromptParams, at: Resolved)
    requires
        prompt_refusal(session, params, at) is None,
    ensures
        session.spec_terminal_of(at.workspace as int, at.pane) matches Some(t) && {
            &&& is_named(t, params.target@)
            &&& t.state == AgentState::Idle
            &&& t.known_agent is Some
            &&& t.managed matches Some(m) ==> !m.launch_pending && m.interactive_ready
            &&& t.runtime matches Some(r) && !r.exit_pending && hosts(r.job, t.known_agent->Some_0)
        },
{
}

/// Focusing a pane marks it, and its tab, as looked at, and nothing in another workspace.
pub proof fn law_focus_marks_only_its_tab(before: Session, after: Session, ws: int, tab: int, pane: u64)
    requires
        0 <= ws < before.workspaces@.len(),
        0 <= tab < before.workspaces@[ws].tabs@.len(),
        focus_moved(before, after, ws, tab, pane),
    ensures
        forall|i: int|
            0 <= i < after.workspaces@[ws].tabs@[tab].panes@.len()
                ==> (#[trigger] after.workspaces@[ws].tabs@[tab].panes@[i]).seen,
        forall|w: int|
            0 <= w < before.workspaces@.len() && w != ws ==> #[trigger] after.workspaces@[w]
                == before.workspaces@[w],
        forall|t: int|
            0 <= t < before.workspaces@[ws].tabs@.len() && t != tab
                ==> #[trigger] after.workspaces@[ws].tabs@[t] == before.workspaces@[ws].tabs@[t],
{
}

} // verus!
