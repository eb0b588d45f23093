//! Laws on requests: whom they bind, who may make them, and what is answered.

use vstd::prelude::*;
use crate::agent_view::{
    plugin_part, plugin_refusal, says_what_is_in_force, state_with, AgentView, AgentViewReply,
    AgentViewState, Plugin,
};
use crate::caller::{
    binding_refusal, caller_refusal, descends, is_alive, pane_root_of, placement, process_of,
    ApiCaller, Build, CallerRejection, PeerCredentials, ProcessEntry, ProcessPrincipal,
    TreePlacement,
};
use crate::info::receiver_of;
use crate::receipts::{
    is_reply_to, is_request_for, receipt_refusal, AcceptedReceipt, ReceiptReply, ReceiptRequest,
};
use crate::requests::{
    anything_changed, bound_to, route_of, touches_ui, Method, Route, ZynkMessageReceivedParams,
};
use crate::response::Refusal;
use crate::search::lemma_first_where;
use crate::session::Session;
use crate::text::decimal;

verus! {

// ---------------------------------------------------------------------------------------------
// Routes
// ---------------------------------------------------------------------------------------------

/// Reports of an agent or of its session, and receipts, are bound to the pane that they name, each
/// under its own name. No other request is bound, those that retire an identity among them.
pub proof fn law_which_requests_are_bound(method: Method)
    ensures
        method matches Method::PaneReportAgent(p) ==> bound_to(method) == Some(
            ("pane.report_agent"@, p.pane_id@),
        ),
        method matches Method::PaneReportAgentSession(p) ==> bound_to(method) == Some(
            ("pane.report_agent_session"@, p.pane_id@),
        ),
        method matches Method::ZynkMessageReceived(p) ==> bound_to(method) == Some(
            ("zynk.message_received"@, p.pane_id@),
        ),
        !(method is PaneReportAgent) && !(method is PaneReportAgentSession)
            && !(method is ZynkMessageReceived) ==> bound_to(method) is None,
{
}

/// A receipt changes nothing on screen; of any other request it is as is said of others. Requests on
/// worktrees, and no others, are answered later. A default workspace is made after each request but
/// those that end the server or hand it over.
pub proof fn law_how_requests_are_routed(method: Method, others: bool)
    ensures
        method is ZynkMessageReceived ==> !touches_ui(method, others),
        !(method is ZynkMessageReceived) ==> touches_ui(method, others) == others,
        route_of(method, others).changes_ui == touches_ui(method, others),
        route_of(method, others).deferred <==> method is WorktreeCreate || method is WorktreeRemove,
        !route_of(method, others).ensure_default_workspace <==> method is ServerStop
            || method is ServerLiveHandoff,
{
}

/// Something has changed exactly when one of the things that count has; what a request that is not
/// put off would have changed later does not count, nor does a workspace that was not to be made.
pub proof fn law_what_counts_as_a_change(
    route: Route,
    before: bool,
    expired: bool,
    later: bool,
    after: bool,
    made: bool,
)
    ensures
        before || expired || after || route.changes_ui ==> anything_changed(
            route,
            before,
            expired,
            later,
            after,
            made,
        ),
        route.deferred && later ==> anything_changed(route, before, expired, later, after, made),
        route.ensure_default_workspace && made ==> anything_changed(
            route,
            before,
            expired,
            later,
            after,
            made,
        ),
        !before && !expired && !after && !route.changes_ui && !(route.deferred && later) && !(
        route.ensure_default_workspace && made) ==> !anything_changed(
            route,
            before,
            expired,
            later,
            after,
            made,
        ),
{
}

// ---------------------------------------------------------------------------------------------
// The agent panel's view
// ---------------------------------------------------------------------------------------------

/// A source is a plugin's when it begins so, and what follows is the plugin's part.
pub proof fn law_sources_of_plugins(source: Seq<char>, part: Seq<char>)
    ensures
        plugin_part(source) == Some(part) <==> source == "plugin:"@ + part,
{
    reveal_strlit("plugin:");
    let mark = seq!['p', 'l', 'u', 'g', 'i', 'n', ':'];
    assert("plugin:"@ =~= mark);
    if plugin_part(source) == Some(part) {
        assert(source =~= source.subrange(0, 7) + source.skip(7));
    }
    if source == mark + part {
        assert(source.subrange(0, 7) =~= mark);
        assert(source.skip(7) =~= part);
    }
}

/// A view of no plugin is put in force whatever plugins there are. One of a plugin is put in force
/// when the plugin has an id, is installed and is on; and is otherwise refused for the first of these
/// that fails.
pub proof fn law_plugins_that_may_put_views(
    source: Seq<char>,
    part: Seq<char>,
    id: Seq<char>,
    plugins: Seq<Plugin>,
    i: int,
)
    ensures
        plugin_part(source) is None ==> plugin_refusal(source, Some(id), plugins) is None
            && plugin_refusal(source, None, plugins) is None,
        plugin_part(source) is Some ==> plugin_refusal(source, None, plugins) == Some(
            Refusal {
                code: "invalid_agent_view"@,
                message: "plugin-owned agent view source has an invalid plugin id"@,
            },
        ),
        plugin_part(source) is Some && (forall|k: int|
            0 <= k < plugins.len() ==> (#[trigger] plugins[k]).id@ != id) ==> plugin_refusal(
            source,
            Some(id),
            plugins,
        ) == Some(Refusal { code: "plugin_not_found"@, message: "plugin not found"@ }),
        plugin_part(source) is Some && 0 <= i < plugins.len() && plugins[i].id@ == id && (forall|
            k: int,
        |
            0 <= k < i ==> (#[trigger] plugins[k]).id@ != id) ==> plugin_refusal(
            source,
            Some(id),
            plugins,
        ) == if plugins[i].enabled {
            None
        } else {
            Some(Refusal { code: "plugin_disabled"@, message: "plugin is disabled"@ })
        },
{
    broadcast use lemma_first_where;

}

/// A view that was put is in force, its source's and no other's, and the lists begin at the top.
pub proof fn law_a_view_that_was_put_is_in_force(view: AgentView, other: Seq<char>)
    ensures
        state_with(Some(view)).current == Some(view),
        state_with(Some(view)).is_from(other) <==> other == view.source@,
        state_with(Some(view)).agent_panel_scroll == 0,
        state_with(Some(view)).mobile_switcher_scroll == 0,
{
}

/// Without a source the view is taken out of force, whoever put it. By a source only its own is;
/// another's stays as it is, with its lists where they were. Afterwards nothing of that source is in
/// force.
pub proof fn law_views_are_cleared_by_their_source(state: AgentViewState, source: Seq<char>)
    ensures
        state.cleared(None).current is None,
        state.is_from(source) ==> state.cleared(Some(source)).current is None
            && state.cleared(Some(source)).agent_panel_scroll == 0 && state.cleared(
            Some(source),
        ).mobile_switcher_scroll == 0,
        !state.is_from(source) ==> state.cleared(Some(source)) == state,
        !state.cleared(Some(source)).is_from(source),
        state.current is None ==> !state.is_from(source),
{
}

/// The reply names the view in force, or says that there is none.
pub proof fn law_replies_name_the_view_in_force(reply: AgentViewReply, current: Option<AgentView>)
    requires
        says_what_is_in_force(reply, current),
    ensures
        reply.active <==> current is Some,
        current matches Some(view) ==> reply.source == Some(view.source) && reply.label
            == view.label,
        current is None ==> reply.source is None && reply.label is None,
{
}

// ---------------------------------------------------------------------------------------------
// Receipts
// ---------------------------------------------------------------------------------------------

/// A receipt is passed on exactly when its number, where it has one, is positive, a hook vouches for
/// the agent in the pane, and there is somebody to record it.
pub proof fn law_which_receipts_are_passed_on(
    session: Session,
    params: ZynkMessageReceivedParams,
    recorder: bool,
)
    ensures
        receipt_refusal(session, params, recorder) is None <==> (params.receiver_seq is None
            || params.receiver_seq->0 >= 1) && receiver_of(session, params.pane_id@) is Some
            && recorder,
        (params.receiver_seq matches Some(n) && n <= 0) ==> receipt_refusal(
            session,
            params,
            recorder,
        ) == Some(
            Refusal {
                code: "invalid_params"@,
                message: "receiver_seq must be positive when present"@,
            },
        ),
        (params.receiver_seq is None || params.receiver_seq->0 >= 1) && receiver_of(
            session,
            params.pane_id@,
        ) is None ==> receipt_refusal(session, params, recorder) == Some(
            Refusal {
                code: "receiver_identity_unverified"@,
                message: "pane has no hook-authoritative agent identity; not receipt-capable"@,
            },
        ),
        (params.receiver_seq is None || params.receiver_seq->0 >= 1) && receiver_of(
            session,
            params.pane_id@,
        ) is Some && !recorder ==> receipt_refusal(session, params, recorder) == Some(
            Refusal {
                code: "receipt_worker_unavailable"@,
                message: "receipt worker is not available in this runtime"@,
            },
        ),
{
}

/// What is asked to be recorded is what the agent said, and what is answered is what was recorded.
pub proof fn law_receipts_say_what_was_said(
    request: ReceiptRequest,
    params: ZynkMessageReceivedParams,
    reply: ReceiptReply,
    accepted: AcceptedReceipt,
)
    ensures
        is_request_for(request, params) <==> request == (ReceiptRequest {
            message_id: params.message_id,
            conversation_id: params.conversation_id,
            conversation_seq: params.conversation_seq,
            runtime_session_id: params.runtime_session_id,
            socket_namespace: params.socket_namespace,
            receiver_seq: params.receiver_seq,
            timestamp: params.timestamp,
            status: params.status,
            receiver_agent_session_hint: params.receiver_agent_session,
        }),
        is_reply_to(reply, accepted) ==> {
            &&& reply.message_id@ == accepted.message_id@
            &&& reply.conversation_id@ == accepted.conversation_id@
            &&& reply.conversation_seq == accepted.conversation_seq
            &&& reply.receipt_status@ == accepted.status@
            &&& reply.delivery_status@ == "received"@
            &&& reply.receiver_pane_id@ == accepted.receiver_pane_id@
            &&& reply.receiver_agent_label@ == accepted.receiver_agent_label@
            &&& reply.next@ == "receipt recorded; processed is deferred"@
        },
{
}

// ---------------------------------------------------------------------------------------------
// Callers
// ---------------------------------------------------------------------------------------------

/// A process is what the last row of its pid says of it, and not there where no row has its pid.
pub proof fn law_the_last_row_of_a_pid_counts(rows: Seq<ProcessEntry>, pid: u32, i: int)
    ensures
        process_of(rows, pid) is None <==> (forall|k: int|
            0 <= k < rows.len() ==> (#[trigger] rows[k]).pid != pid),
        0 <= i < rows.len() && rows[i].pid == pid && (forall|k: int|
            i < k < rows.len() ==> (#[trigger] rows[k]).pid != pid) ==> process_of(rows, pid)
            == Some((rows[i].parent, rows[i].start_time)),
    decreases rows.len(),
{
    if rows.len() > 0 {
        let head = rows.drop_last();
        let n = rows.len() - 1;
        law_the_last_row_of_a_pid_counts(head, pid, i);
        assert(rows[n] == rows.last());
        assert(forall|k: int| 0 <= k < n ==> #[trigger] head[k] == rows[k]);
        if rows.last().pid != pid && (forall|k: int|
            0 <= k < head.len() ==> (#[trigger] head[k]).pid != pid) {
            assert forall|k: int| 0 <= k < rows.len() implies (#[trigger] rows[k]).pid != pid by {
                if k < n {
                    assert(head[k] == rows[k]);
                }
            }
        }
    }
}

/// A process is the one it was when its pid is there and started when it did.
pub proof fn law_a_process_is_known_by_when_it_started(
    rows: Seq<ProcessEntry>,
    who: ProcessPrincipal,
    parent: u32,
    started: u64,
)
    ensures
        process_of(rows, who.pid) is None ==> !is_alive(rows, who),
        process_of(rows, who.pid) == Some((parent, started)) ==> (is_alive(rows, who) <==> started
            == who.start_time),
{
}

/// A process descends from itself. It descends from another within some steps when its parent does
/// within one step fewer; nothing descends from a process that its parents do not lead to.
pub proof fn law_descent_goes_by_parents(
    rows: Seq<ProcessEntry>,
    pid: u32,
    root: u32,
    parent: u32,
    started: u64,
    hops: nat,
)
    requires
        process_of(rows, pid) == Some((parent, started)),
        pid != root,
    ensures
        descends(rows, root, root, hops),
        descends(rows, pid, root, hops + 1) <==> descends(rows, parent, root, hops),
        !descends(rows, pid, root, 0),
{
}

/// Where a process stands to a pane: inside where both are who they were and no more than sixty-four
/// parents lead from the one to the other; otherwise it is told apart what failed first.
pub proof fn law_where_a_process_stands(
    rows: Seq<ProcessEntry>,
    caller: ProcessPrincipal,
    root: ProcessPrincipal,
)
    ensures
        placement(rows, caller, root) == TreePlacement::Inside <==> caller.pid != 0 && root.pid != 0
            && is_alive(rows, caller) && is_alive(rows, root) && descends(
            rows,
            caller.pid,
            root.pid,
            64,
        ),
        caller.pid != 0 && root.pid != 0 && !is_alive(rows, caller) ==> placement(rows, caller, root)
            == TreePlacement::CallerReplaced,
        caller.pid != 0 && root.pid != 0 && is_alive(rows, caller) && process_of(rows, root.pid)
            is None ==> placement(rows, caller, root) == TreePlacement::PaneRootGone,
        caller.pid != 0 && root.pid != 0 && is_alive(rows, caller) && process_of(rows, root.pid)
            is Some && !is_alive(rows, root) ==> placement(rows, caller, root)
            == TreePlacement::PaneRootReplaced,
        caller.pid == 0 || root.pid == 0 ==> placement(rows, caller, root)
            == TreePlacement::Outside,
{
}

/// A caller is refused for its user first, then for being unknown, then for the pane's want of a
/// process or of a known one, and last for where it stands.
pub proof fn law_why_callers_are_refused(
    peer: PeerCredentials,
    uid: u32,
    root: Option<(u32, Option<u64>)>,
    rows: Seq<ProcessEntry>,
)
    ensures
        ({
            let refused = caller_refusal(peer, uid, root, rows);
            let peer_pid = peer.pid;
            &&& peer.uid != uid <==> refused == Some(
                CallerRejection::ForeignUid { peer_pid, uid: peer.uid },
            )
            &&& peer.uid == uid && peer.start_time is None <==> refused == Some(
                CallerRejection::CallerUnidentified { peer_pid },
            )
            &&& peer.uid == uid && peer.start_time is Some && root is None <==> refused == Some(
                CallerRejection::PaneHasNoProcess { peer_pid },
            )
            &&& peer.uid == uid && peer.start_time is Some && root is Some && (root->0).1 is None
                <==> refused == Some(
                CallerRejection::PaneRootUnidentified { peer_pid, root_pid: (root->0).0 },
            )
            &&& peer.uid == uid && peer.start_time is Some && root is Some && (root->0).1 is Some ==> {
                let root_pid = (root->0).0;
                let place = placement(
                    rows,
                    ProcessPrincipal { pid: peer_pid, start_time: peer.start_time->0 },
                    ProcessPrincipal { pid: root_pid, start_time: ((root->0).1)->0 },
                );
                &&& place == TreePlacement::Inside <==> refused is None
                &&& place == TreePlacement::CallerReplaced <==> refused == Some(
                    CallerRejection::CallerReplaced { peer_pid },
                )
                &&& place == TreePlacement::PaneRootGone <==> refused == Some(
                    CallerRejection::PaneRootGone { peer_pid, root_pid },
                )
                &&& place == TreePlacement::PaneRootReplaced <==> refused == Some(
                    CallerRejection::PaneRootReplaced { peer_pid, root_pid },
                )
                &&& place == TreePlacement::Outside <==> refused == Some(
                    CallerRejection::OutsidePane { peer_pid },
                )
            }
        }),
{
}

/// A caller that reports for a pane is held to the process that the pane's terminal runs. Where there
/// is no such pane nothing is asked of it; a debug build may take its word.
pub proof fn law_callers_are_held_to_their_pane(
    session: Session,
    id: Seq<char>,
    caller: ApiCaller,
    build: Build,
    uid: u32,
    rows: Seq<ProcessEntry>,
    ws: int,
    pane: u64,
)
    ensures
        session.spec_parse_pane_id(id) is None ==> binding_refusal(
            session,
            id,
            caller,
            build,
            uid,
            rows,
        ) is None,
        session.spec_parse_pane_id(id) == Some((ws, pane)) ==> {
            let refused = binding_refusal(session, id, caller, build, uid, rows);
            &&& build is Debug && caller.trusted_as_pane_child ==> refused is None
            &&& (build is Release || !caller.trusted_as_pane_child) && caller.peer is None
                ==> refused == Some(CallerRejection::UnknownPeer)
            &&& (build is Release || !caller.trusted_as_pane_child) && caller.peer is Some
                ==> refused == caller_refusal(
                caller.peer->0,
                uid,
                match session.spec_terminal_of(ws, pane) {
                    Some(t) => if t.runtime is Some {
                        t.runtime->0.child
                    } else {
                        None
                    },
                    None => None,
                },
                rows,
            )
        },
{
    assert(pane_root_of(session, ws, pane) == match session.spec_terminal_of(ws, pane) {
        Some(t) => if t.runtime is Some {
            t.runtime->0.child
        } else {
            None
        },
        None => None,
    });
}

/// A refusal names the caller and the pane.
pub proof fn law_refusals_name_caller_and_pane(peer_pid: u32, root_pid: u32, uid: u32, pane: Seq<char>)
    ensures
        CallerRejection::UnknownPeer.spec_message(pane)
            == "caller could not be identified: the connection reported no peer credentials, so it cannot be placed inside pane "@
            + pane + " (ADR 0014)"@,
        (CallerRejection::ForeignUid { peer_pid, uid }).spec_message(pane) == "caller pid "@
            + decimal(peer_pid as nat) + " runs as uid "@ + decimal(uid as nat)
            + ", not as this server's user, so it cannot report for pane "@ + pane
            + " (ADR 0014)"@,
        (CallerRejection::CallerUnidentified { peer_pid }).spec_message(pane) == "caller pid "@
            + decimal(peer_pid as nat)
            + " had already exited when its connection was accepted, so no process was bound to it and it cannot be placed inside pane "@
            + pane + " (ADR 0014)"@,
        (CallerRejection::CallerReplaced { peer_pid }).spec_message(pane) == "caller pid "@
            + decimal(peer_pid as nat)
            + " no longer holds the process that opened this connection, so it cannot be placed inside pane "@
            + pane
            + ": a pid is reused, and only the process that connected may report (ADR 0014)"@,
        (CallerRejection::PaneHasNoProcess { peer_pid }).spec_message(pane) == "pane "@ + pane
            + " has no running process, so caller pid "@ + decimal(peer_pid as nat)
            + " cannot be inside it (ADR 0014)"@,
        (CallerRejection::PaneRootUnidentified { peer_pid, root_pid }).spec_message(pane) == "pane "@
            + pane + "'s process "@ + decimal(root_pid as nat)
            + " has no recorded start time, so it is a bare pid rather than an identity and caller pid "@
            + decimal(peer_pid as nat) + " cannot be placed inside it (ADR 0014)"@,
        (CallerRejection::PaneRootGone { peer_pid, root_pid }).spec_message(pane) == "pane "@ + pane
            + "'s process "@ + decimal(root_pid as nat) + " has exited, so caller pid "@ + decimal(
            peer_pid as nat,
        ) + " cannot be inside its process tree (ADR 0014)"@,
        (CallerRejection::PaneRootReplaced { peer_pid, root_pid }).spec_message(pane) == "pane "@
            + pane + "'s process "@ + decimal(root_pid as nat)
            + " has exited and that pid now belongs to another process, so caller pid "@ + decimal(
            peer_pid as nat,
        )
            + " cannot be inside the pane's tree; a reused pid does not inherit the pane it once rooted (ADR 0014)"@,
        (CallerRejection::OutsidePane { peer_pid }).spec_message(pane) == "caller pid "@ + decimal(
            peer_pid as nat,
        ) + " is not inside pane "@ + pane
            + "'s process tree; identity reports and receipts are accepted only from the target pane (ADR 0014)"@,
{
}

} // verus!
