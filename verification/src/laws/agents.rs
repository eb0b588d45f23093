//! Agents: who is prompted, what is read, what is explained, which keys are sent.

use vstd::prelude::*;
use crate::agents::{
    agent_focus_outcome, agent_get_outcome, agent_missing, agent_panes, agent_unready,
    are_key_bytes, are_prompt_bytes, explains, first_hint, flattened, has_agent_info, hosts,
    is_agent_info, keys_planned, keys_refusal, prompt_begun, prompt_outcome, prompt_planned,
    prompt_refusal, read_outcome, read_planned, reconciled_told, send_planned, state_label,
    target_refusal, view_of, AgentInfo, Explain, PaneRead, PromptParams, PromptPlan, Prompted,
    ReadFormat, ReadParams, ReadSource, Resolved, TextView,
};
use crate::info::{has_info, told_workspaces};
use crate::response::{ApiError, Refusal};
use crate::session::{Agent, AgentState, Event, ForegroundJob, Session};
use crate::updates::PaneRef;

verus! {

proof fn lemma_first_hint(hints: Seq<Option<Agent>>)
    ensures
        match first_hint(hints) {
            Some(agent) => exists|k: int|
                0 <= k < hints.len() && (#[trigger] hints[k]) == Some(agent) && forall|i: int|
                    0 <= i < k ==> (#[trigger] hints[i]) is None,
            None => forall|i: int| 0 <= i < hints.len() ==> (#[trigger] hints[i]) is None,
        },
    decreases hints.len(),
{
    if hints.len() > 0 {
        let head = hints.drop_last();
        lemma_first_hint(head);
        assert(forall|i: int| 0 <= i < head.len() ==> head[i] == #[trigger] hints[i]);
        match first_hint(head) {
            Some(agent) => {
                let k = choose|k: int|
                    0 <= k < head.len() && (#[trigger] head[k]) == Some(agent) && forall|i: int|
                        0 <= i < k ==> (#[trigger] head[i]) is None;
                assert(hints[k] == Some(agent));
            },
            None => {
                assert(hints[hints.len() - 1] == hints.last());
            },
        }
    }
}

/// A terminal hosts an agent when its job in front was recognised as that agent, or, where the job
/// was not recognised, when the first of its processes that says anything says so. It never hosts
/// two agents.
pub proof fn law_a_terminal_hosts_the_agent_in_front(
    job: Option<ForegroundJob>,
    agent: Agent,
    other: Agent,
)
    ensures
        job is None ==> !hosts(job, agent),
        job matches Some(j) ==> {
            &&& j.identified is Some ==> (hosts(job, agent) <==> j.identified == Some(agent))
            &&& j.identified is None ==> (hosts(job, agent) <==> exists|k: int|
                0 <= k < j.hints@.len() && (#[trigger] j.hints@[k]) == Some(agent) && forall|i: int|
                    0 <= i < k ==> (#[trigger] j.hints@[i]) is None)
        },
        hosts(job, agent) && hosts(job, other) ==> agent == other,
{
    if job is Some {
        let hints = job->Some_0.hints@;
        lemma_first_hint(hints);
        if exists|k: int|
            0 <= k < hints.len() && (#[trigger] hints[k]) == Some(agent) && forall|i: int|
                0 <= i < k ==> (#[trigger] hints[i]) is None {
            let k = choose|k: int|
                0 <= k < hints.len() && (#[trigger] hints[k]) == Some(agent) && forall|i: int|
                    0 <= i < k ==> (#[trigger] hints[i]) is None;
            let first = first_hint(hints)->Some_0;
            let m = choose|m: int|
                0 <= m < hints.len() && (#[trigger] hints[m]) == Some(first) && forall|i: int|
                    0 <= i < m ==> (#[trigger] hints[i]) is None;
            if m < k {
                assert(hints[m] is None);
            }
            if k < m {
                assert(hints[k] is None);
            }
        }
    }
}

/// A prompt is sent exactly when the terminal its target leads to goes by the target's name, its
/// agent is known and idle, was not started here or was and is ready for input, and is in front of
/// a process without an exit that waits to be handled.
pub proof fn law_ready_agents_are_prompted(session: Session, params: PromptParams, at: Resolved)
    ensures
        prompt_refusal(session, params, at) is None <==> (session.spec_terminal_of(
            at.workspace as int,
            at.pane,
        ) matches Some(t) && {
            &&& t.agent_name matches Some(name) && name@ == params.target@
            &&& t.state == AgentState::Idle
            &&& t.managed matches Some(m) ==> !m.launch_pending && m.interactive_ready
            &&& t.known_agent matches Some(agent) && t.runtime matches Some(r) && !r.exit_pending
                && hosts(r.job, agent)
        }),
{
}

/// A prompt that is not sent is answered with what stands in its way: the first of these that does.
pub proof fn law_refused_prompts_say_why(session: Session, params: PromptParams, at: Resolved)
    ensures
        ({
            let refused = prompt_refusal(session, params, at);
            let who = "agent "@ + params.target@;
            let unready = Refusal {
                code: "agent_not_ready"@,
                message: who + " is not an active named agent"@,
            };
            let missing = Refusal {
                code: "agent_not_found"@,
                message: "agent target "@ + params.target@ + " not found"@,
            };
            match session.spec_terminal_of(at.workspace as int, at.pane) {
                None => refused == Some(missing),
                Some(t) => {
                    let named = t.agent_name matches Some(name) && name@ == params.target@;
                    let launching = t.managed matches Some(m) && m.launch_pending;
                    let starting = t.managed matches Some(m) && !m.interactive_ready;
                    let known = named && t.known_agent is Some && t.state != AgentState::Unknown
                        && !launching;
                    &&& !known ==> refused == Some(unready)
                    &&& known && t.state == AgentState::Working ==> refused == Some(
                        Refusal {
                            code: "agent_working"@,
                            message: who + " is still working; wait before prompting"@,
                        },
                    )
                    &&& known && t.state == AgentState::Blocked ==> refused == Some(
                        Refusal {
                            code: "agent_blocked"@,
                            message: who
                                + " is blocked and needs user input before it can accept a prompt"@,
                        },
                    )
                    &&& known && t.state == AgentState::Idle && starting ==> refused == Some(unready)
                    &&& known && t.state == AgentState::Idle && !starting && t.runtime is None
                        ==> refused == Some(missing)
                    &&& known && t.state == AgentState::Idle && !starting ==> (t.runtime matches Some(
                        r,
                    ) ==> (r.exit_pending || !hosts(r.job, t.known_agent->Some_0) ==> refused
                        == Some(
                        Refusal {
                            code: "agent_not_ready"@,
                            message: who
                                + " is no longer the pane foreground process or has a pending exit"@,
                        },
                    )))
                },
            }
        }),
{
}

/// A prompt is for the terminal its target leads to when that goes by the target's name and, where
/// a terminal was expected, is that one.
pub proof fn law_prompts_are_for_the_terminal_they_expect(
    session: Session,
    params: PromptParams,
    at: Resolved,
)
    ensures
        ({
            let refused = target_refusal(session, params, at);
            match session.spec_terminal_of(at.workspace as int, at.pane) {
                None => refused == Some(
                    Refusal {
                        code: "agent_not_found"@,
                        message: "agent target "@ + params.target@ + " not found"@,
                    },
                ),
                Some(t) => {
                    let named = t.agent_name matches Some(name) && name@ == params.target@;
                    let other = params.expected_terminal_id matches Some(id) && id@
                        != at.terminal_id@;
                    &&& refused is None <==> named && !other
                    &&& !named ==> refused == Some(
                        Refusal {
                            code: "agent_not_ready"@,
                            message: "agent "@ + params.target@ + " is not an active named agent"@,
                        },
                    )
                    &&& named && other ==> refused == Some(
                        Refusal {
                            code: "agent_target_changed"@,
                            message: "agent target no longer has the expected terminal_id"@,
                        },
                    )
                },
            }
        }),
{
}

/// As many lines as were asked for, up to a thousand; eighty where no number was.
pub open spec fn lines_are_as_asked_for(asked: Option<u32>, lines: u32) -> bool {
    &&& asked is None ==> lines == 80
    &&& asked matches Some(n) ==> lines <= n && lines <= 1000 && (lines == n || lines == 1000)
}

/// Reading gives as many lines as were asked for, up to a thousand, and eighty where no number was;
/// it keeps the escape sequences exactly where they were asked for, but for what agents are
/// recognised by.
pub proof fn law_reads_are_as_asked_for(params: ReadParams)
    ensures
        ({
            let ansi = params.format == ReadFormat::Ansi;
            let view = view_of(params);
            &&& params.source == ReadSource::Visible ==> view == TextView::Visible { ansi }
            &&& params.source == ReadSource::Detection ==> view == TextView::Detection
            &&& params.source == ReadSource::Recent ==> (view matches TextView::Recent {
                ansi: kept,
                lines,
            } && kept == ansi && lines_are_as_asked_for(params.lines, lines))
            &&& params.source == ReadSource::RecentUnwrapped
                ==> (view matches TextView::RecentUnwrapped { ansi: kept, lines } && kept == ansi
                && lines_are_as_asked_for(params.lines, lines))
        }),
{
}

/// An agent whose hook reports its whole lifecycle is explained by its label and state; any other
/// by its screen, as the agent it is known as, or else was detected as. Without a process, or
/// without either, it is not explained.
pub proof fn law_explanations_name_the_right_agent(
    session: Session,
    target: Seq<char>,
    at: Resolved,
    r: Result<Explain, Refusal>,
)
    requires
        explains(session, target, at, r),
    ensures
        match session.spec_terminal_of(at.workspace as int, at.pane) {
            None => r matches Err(e) && e.code == "agent_not_found"@ && e.message
                == "agent target "@ + target + " not found"@,
            Some(t) => {
                &&& t.runtime is None ==> (r matches Err(e) && e.code == "agent_not_found"@
                    && e.message == "agent target "@ + target + " not found"@)
                &&& t.runtime is Some && t.full_lifecycle_hook
                    ==> (r matches Ok(Explain::SkippedForHook { label, state }) && state == t.state
                    && (t.agent_label matches Some(own) ==> label@ == own@) && (t.agent_label is None
                    ==> label@ == "unknown"@))
                &&& t.runtime is Some && !t.full_lifecycle_hook && t.known_agent is Some
                    ==> (r matches Ok(Explain::Evaluate { agent }) && Some(agent) == t.known_agent)
                &&& t.runtime is Some && !t.full_lifecycle_hook && t.known_agent is None
                    && t.detected_agent is Some ==> (r matches Ok(Explain::Evaluate { agent })
                    && Some(agent) == t.detected_agent)
                &&& t.runtime is Some && !t.full_lifecycle_hook && t.known_agent is None
                    && t.detected_agent is None ==> (r matches Err(e) && e.code
                    == "agent_explain_unavailable"@ && e.message == "agent target "@ + target
                    + " does not have a detected agent label"@)
            },
        },
{
}

/// Keys are sent exactly to a terminal with a known agent that its process has in front.
pub proof fn law_keys_reach_the_agent_in_front(session: Session, target: Seq<char>, at: Resolved)
    ensures
        ({
            let refused = keys_refusal(session, target, at);
            let unready = Refusal {
                code: "agent_not_ready"@,
                message: "agent "@ + target + " is not an active named agent"@,
            };
            let missing = Refusal {
                code: "agent_not_found"@,
                message: "agent target "@ + target + " not found"@,
            };
            match session.spec_terminal_of(at.workspace as int, at.pane) {
                Some(t) => {
                    &&& refused is None <==> (t.known_agent matches Some(agent) && t.runtime matches Some(
                        r,
                    ) && hosts(r.job, agent))
                    &&& t.known_agent is None ==> refused == Some(unready)
                    &&& t.known_agent is Some && t.runtime is None ==> refused == Some(missing)
                    &&& refused is Some && t.known_agent is Some && t.runtime is Some ==> refused
                        == Some(unready)
                },
                None => refused is Some && (at.workspace >= session.workspaces@.len() ==> refused
                    == Some(missing)) && (at.workspace < session.workspaces@.len() ==> refused
                    == if session.workspaces@[at.workspace as int].spec_pane(at.pane) is Some {
                    Some(unready)
                } else {
                    Some(missing)
                }),
            }
        }),
{
}

/// The bytes of some keys are those of each, one key after another and nothing between.
pub proof fn law_keys_are_sent_one_after_another(a: Seq<Vec<u8>>, b: Seq<Vec<u8>>, key: Vec<u8>)
    ensures
        flattened(seq![key]) == key@,
        flattened(a + b) == flattened(a) + flattened(b),
    decreases b.len(),
{
    reveal_with_fuel(flattened, 2);
    assert(seq![key].drop_last() =~= Seq::<Vec<u8>>::empty());
    assert(flattened(seq![key]) =~= key@);
    if b.len() == 0 {
        assert(a + b =~= a);
        assert(flattened(a) + flattened(b) =~= flattened(a));
    } else {
        law_keys_are_sent_one_after_another(a, b.drop_last(), key);
        assert((a + b).drop_last() =~= a + b.drop_last());
        assert(flattened(a + b) =~= flattened(a) + flattened(b));
    }
}

/// An agent is listed for exactly those panes that can be told of and have an agent: one that goes
/// by a name, or by a label.
pub proof fn law_every_agent_is_listed(session: Session, at: PaneRef)
    ensures
        agent_panes(session).contains(at) <==> (told_workspaces(
            session,
            session.workspaces@.len() as int,
        ).contains(at) && (session.spec_terminal_of(at.0, at.1) matches Some(t) && (t.agent_label is Some
            || t.agent_name is Some))),
{
    let all = told_workspaces(session, session.workspaces@.len() as int);
    let p = |x: PaneRef| has_agent_info(session, x);
    if all.contains(at) && has_agent_info(session, at) {
        let i = choose|i: int| 0 <= i < all.len() && all[i] == at;
        all.lemma_filter_contains(p, i);
    }
    if all.filter(p).contains(at) {
        let k = choose|k: int| 0 <= k < all.filter(p).len() && all.filter(p)[k] == at;
        all.lemma_filter_pred(p, k);
        all.lemma_filter_contains_rev(p, at);
    }
}

/// Each state has a name of its own.
pub proof fn law_states_have_their_names(state: AgentState)
    ensures
        state == AgentState::Idle ==> state_label(state) == "idle"@,
        state == AgentState::Working ==> state_label(state) == "working"@,
        state == AgentState::Blocked ==> state_label(state) == "blocked"@,
        state == AgentState::Unknown ==> state_label(state) == "unknown"@,
{
}

// ---------------------------------------------------------------------------------------------
// Requests as a whole
// ---------------------------------------------------------------------------------------------

/// An agent that is not there, or not ready, is named in the reply.
pub proof fn law_agents_are_named_in_replies(target: Seq<char>)
    ensures
        agent_missing(target) == (Refusal {
            code: "agent_not_found"@,
            message: "agent target "@ + target + " not found"@,
        }),
        agent_unready(target) == (Refusal {
            code: "agent_not_ready"@,
            message: "agent "@ + target + " is not an active named agent"@,
        }),
{
}

/// There is an agent to speak of in the terminal that a target leads to.
pub open spec fn leads_to_agent(session: Session, at: Resolved) -> bool {
    session.spec_terminal_of(at.workspace as int, at.pane) matches Some(t) && (t.agent_label is Some
        || t.agent_name is Some)
}

/// A process runs in the terminal that a target leads to.
pub open spec fn leads_to_process(session: Session, at: Resolved) -> bool {
    session.spec_terminal_of(at.workspace as int, at.pane) matches Some(t) && t.runtime is Some
}

/// An agent is told of by its name and by the pane it is in.
pub proof fn law_agents_are_told_of(info: AgentInfo, session: Session, at: PaneRef)
    requires
        is_agent_info(info, session, at),
    ensures
        session.spec_terminal_of(at.0, at.1) matches Some(t) ==> info.name == t.agent_name,
        crate::info::is_pane_info(info.pane, session, at.0, at.1),
{
}

/// An agent that is asked for is answered with its own info; where its target leads nowhere it is told
/// why, and where it leads to no agent, that none was found.
pub proof fn law_agents_can_be_asked_for(
    session: Session,
    target: Seq<char>,
    resolved: Result<Resolved, ApiError>,
    body: Result<AgentInfo, ApiError>,
)
    requires
        agent_get_outcome(session, target, resolved, body),
    ensures
        resolved matches Err(why) ==> body == Err::<AgentInfo, ApiError>(why),
        resolved matches Ok(at) ==> {
            &&& leads_to_agent(session, at) ==> (body matches Ok(info) && is_agent_info(
                info,
                session,
                (at.workspace as int, at.pane),
            ))
            &&& !leads_to_agent(session, at) ==> (body matches Err(e) && e.code@
                == "agent_not_found"@ && e.message@ == "agent target "@ + target + " not found"@)
        },
{
}

/// An agent that is there gets the focus, at its own pane; otherwise nothing changes and it is told
/// why.
pub proof fn law_agents_can_be_focused(
    before: Session,
    after: Session,
    target: Seq<char>,
    resolved: Result<Resolved, ApiError>,
    body: Result<AgentInfo, ApiError>,
)
    requires
        agent_focus_outcome(before, after, target, resolved, body),
    ensures
        resolved matches Err(why) ==> after == before && body == Err::<AgentInfo, ApiError>(why),
        resolved matches Ok(at) ==> {
            &&& leads_to_agent(before, at) ==> {
                &&& body matches Ok(info) && is_agent_info(
                    info,
                    after,
                    (at.workspace as int, at.pane),
                )
                &&& after.active == Some(at.workspace)
                &&& after.selected == at.workspace
            }
            &&& !leads_to_agent(before, at) ==> after == before && (body matches Err(e) && e.code@
                == "agent_not_found"@ && e.message@ == "agent target "@ + target + " not found"@)
        },
{
}

/// A prompt without text is refused before anything is looked at; one whose target leads nowhere is
/// told why; any other goes on exactly where it is for the terminal its target led to.
pub proof fn law_prompts_are_looked_at_in_order(
    session: Session,
    params: PromptParams,
    resolved: Result<Resolved, ApiError>,
    r: Result<Resolved, ApiError>,
)
    requires
        prompt_begun(session, params, resolved, r),
    ensures
        params.text@.len() == 0 ==> (r matches Err(e) && e.code@ == "empty_agent_prompt"@
            && e.message@ == "agent prompt must not be empty"@),
        params.text@.len() > 0 ==> {
            &&& resolved matches Err(why) ==> r == Err::<Resolved, ApiError>(why)
            &&& resolved matches Ok(at) ==> match target_refusal(session, params, at) {
                None => r == Ok::<Resolved, ApiError>(at),
                Some(why) => r matches Err(e) && e.code@ == why.code && e.message@ == why.message,
            }
        },
{
}

/// A prompt goes to the agent that is known in the terminal; what its state has changed is counted from
/// then on.
pub proof fn law_prompts_go_to_the_known_agent(
    session: Session,
    params: PromptParams,
    at: Resolved,
    r: Result<PromptPlan, ApiError>,
)
    requires
        prompt_planned(session, params, at, r),
    ensures
        match prompt_refusal(session, params, at) {
            None => r matches Ok(plan) && (session.spec_terminal_of(
                at.workspace as int,
                at.pane,
            ) matches Some(t) && t.known_agent == Some(plan.agent) && (t.state_change_seq matches Some(
                n,
            ) ==> plan.baseline_state_change_seq == n) && (t.state_change_seq is None
                ==> plan.baseline_state_change_seq == 0)),
            Some(why) => r matches Err(e) && e.code@ == why.code && e.message@ == why.message,
        },
{
}

/// A prompt is sent as it is written. One agent waits for the focus: what is sent to it begins with the
/// mark of the focus, and where there is none nothing is sent.
pub proof fn law_prompts_are_sent_as_written(
    agent: Agent,
    focus: Result<Vec<u8>, String>,
    text: Vec<u8>,
    r: Result<Vec<u8>, ApiError>,
)
    requires
        are_prompt_bytes(agent, focus, text, r),
    ensures
        agent != Agent::GithubCopilot ==> r == Ok::<Vec<u8>, ApiError>(text),
        agent == Agent::GithubCopilot ==> {
            &&& focus matches Ok(mark) ==> (r matches Ok(bytes) && bytes@ == mark@ + text@)
            &&& focus matches Err(problem) ==> (r matches Err(e) && e.code@
                == "agent_prompt_failed"@ && e.message@ == problem@)
        },
{
}

/// A prompt that was sent is answered with its agent, and with the count from before it was sent.
pub proof fn law_sent_prompts_are_answered(
    session: Session,
    params: PromptParams,
    at: Resolved,
    plan: PromptPlan,
    sent: Result<(), String>,
    body: Result<Prompted, ApiError>,
)
    requires
        prompt_outcome(session, params, at, plan, sent, body),
    ensures
        sent matches Err(problem) ==> (body matches Err(e) && e.code@ == "agent_prompt_failed"@
            && e.message@ == problem@),
        sent is Ok && leads_to_agent(session, at) ==> (body matches Ok(prompted) && is_agent_info(
            prompted.agent,
            session,
            (at.workspace as int, at.pane),
        ) && prompted.baseline_state_change_seq == plan.baseline_state_change_seq),
        sent is Ok && !leads_to_agent(session, at) ==> (body matches Err(e) && e.code@
            == "agent_not_found"@),
{
}

/// An agent that was reconciled with a change is told of by its pane, and the session is to be saved;
/// without one nothing changes.
pub proof fn law_reconciled_agents_are_told_of(
    before: Session,
    after: Session,
    at: Resolved,
    changed: bool,
)
    requires
        reconciled_told(before, after, at, changed),
    ensures
        !changed ==> after == before,
        changed ==> {
            &&& after.save_scheduled
            &&& after == (Session { events: after.events, save_scheduled: true, ..before })
            &&& has_info(before, at.workspace as int, at.pane) ==> after.events@.len()
                == before.events@.len() + 1 && (after.events@.last() matches Event::PaneUpdated {
                pane,
            } && crate::info::is_pane_info(pane, before, at.workspace as int, at.pane))
                && after.events@.drop_last() == before.events@
            &&& !has_info(before, at.workspace as int, at.pane) ==> after.events == before.events
        },
{
    if changed && has_info(before, at.workspace as int, at.pane) {
        assert(after.events@.drop_last() =~= before.events@);
    }
}

/// Text is read where a process runs, as asked for; elsewhere no agent was found.
pub proof fn law_text_is_read_where_a_process_runs(
    session: Session,
    params: ReadParams,
    resolved: Result<Resolved, ApiError>,
    r: Result<(Resolved, TextView), ApiError>,
)
    requires
        read_planned(session, params, resolved, r),
    ensures
        resolved matches Err(why) ==> r == Err::<(Resolved, TextView), ApiError>(why),
        resolved matches Ok(at) ==> {
            &&& leads_to_process(session, at) ==> r == Ok::<(Resolved, TextView), ApiError>(
                (at, view_of(params)),
            )
            &&& !leads_to_process(session, at) ==> (r matches Err(e) && e.code@
                == "agent_not_found"@ && e.message@ == "agent target "@ + params.target@
                + " not found"@)
        },
{
}

/// What was read is answered as it was read, with the source and the format that were asked for and the
/// ids of its pane, tab and workspace.
pub proof fn law_reads_are_answered(
    session: Session,
    params: ReadParams,
    at: Resolved,
    text: String,
    body: Result<PaneRead, ApiError>,
)
    requires
        read_outcome(session, params, at, text, body),
    ensures
        body matches Ok(read) && {
            let w = session.workspaces@[at.workspace as int];
            &&& read.text@ == text@
            &&& read.source == params.source
            &&& read.format == params.format
            &&& read.workspace_id@ == w.id@
            &&& read.tab_id@ == w.tabs@[at.tab as int].public_id@
            &&& w.spec_pane(at.pane) matches Some(p) ==> read.pane_id@ == p.public_id@
            &&& w.spec_pane(at.pane) is None ==> read.pane_id@ == params.target@
            &&& read.revision == 0
            &&& !read.truncated
        },
{
}

/// Text is sent where a process runs; elsewhere no agent was found.
pub proof fn law_text_is_sent_where_a_process_runs(
    session: Session,
    target: Seq<char>,
    resolved: Result<Resolved, ApiError>,
    r: Result<Resolved, ApiError>,
)
    requires
        send_planned(session, target, resolved, r),
    ensures
        resolved matches Err(why) ==> r == Err::<Resolved, ApiError>(why),
        resolved matches Ok(at) ==> {
            &&& leads_to_process(session, at) ==> r == Ok::<Resolved, ApiError>(at)
            &&& !leads_to_process(session, at) ==> (r matches Err(e) && e.code@
                == "agent_not_found"@ && e.message@ == "agent target "@ + target + " not found"@)
        },
{
}

/// Keys are sent where they reach the agent in front; elsewhere it is told why not.
pub proof fn law_keys_are_sent_where_they_reach_the_agent(
    session: Session,
    target: Seq<char>,
    resolved: Result<Resolved, ApiError>,
    r: Result<Resolved, ApiError>,
)
    requires
        keys_planned(session, target, resolved, r),
    ensures
        resolved matches Err(why) ==> r == Err::<Resolved, ApiError>(why),
        resolved matches Ok(at) ==> match keys_refusal(session, target, at) {
            None => r == Ok::<Resolved, ApiError>(at),
            Some(why) => r matches Err(e) && e.code@ == why.code && e.message@ == why.message,
        },
{
}

/// Keys that can all be sent are sent, and where one cannot be it is named and none is.
pub proof fn law_keys_that_cannot_be_sent_are_named(
    encoded: Result<Vec<Vec<u8>>, String>,
    r: Result<Vec<u8>, ApiError>,
)
    requires
        are_key_bytes(encoded, r),
    ensures
        encoded matches Ok(keys) ==> (r matches Ok(bytes) && bytes@ == flattened(keys@)),
        encoded matches Err(key) ==> (r matches Err(e) && e.code@ == "invalid_key"@ && e.message@
            == "unsupported key "@ + key@),
{
}

} // verus!
