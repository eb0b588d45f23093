use zynk::caller::{
    place_caller_in_pane_tree, place_process_in_tree, CallerRejection, PeerCredentials,
    ProcessEntry, ProcessPrincipal, TreePlacement, CALLER_OUTSIDE_PANE, MAX_ANCESTRY_HOPS,
};
use zynk::requests::{
    pane_bound_target, request_changes_ui, route_request, Method, PaneReportAgentParams,
    PaneReportAgentSessionParams, PaneTarget, Request, ZynkMessageReceivedParams,
};
use zynk::session::AgentState;

fn table(rows: &[(u32, u32, u64)]) -> Vec<ProcessEntry> {
    rows.iter()
        .map(|&(pid, parent, start_time)| ProcessEntry { pid, parent, start_time })
        .collect()
}

fn start_time_in(rows: &[(u32, u32, u64)], pid: u32) -> u64 {
    rows.iter().find(|row| row.0 == pid).map_or(0, |row| row.2)
}

fn place(caller_pid: u32, root_pid: u32, rows: &[(u32, u32, u64)]) -> TreePlacement {
    place_process_in_tree(
        ProcessPrincipal { pid: caller_pid, start_time: start_time_in(rows, caller_pid) },
        ProcessPrincipal { pid: root_pid, start_time: start_time_in(rows, root_pid) },
        &table(rows),
    )
}

fn peer(pid: u32) -> PeerCredentials {
    PeerCredentials { pid, uid: 1000, start_time: Some(900) }
}

#[test]
fn a_process_is_inside_the_pane_it_descends_from() {
    let procs = [(400, 300, 40), (300, 200, 30), (200, 100, 20), (100, 10, 10), (10, 1, 5)];
    assert_eq!(place(100, 100, &procs), TreePlacement::Inside, "the shell");
    assert_eq!(place(200, 100, &procs), TreePlacement::Inside, "the agent");
    assert_eq!(place(400, 100, &procs), TreePlacement::Inside, "the hook's python");
}

#[test]
fn a_process_in_another_pane_is_outside() {
    let procs = [(201, 101, 21), (202, 102, 22), (101, 10, 11), (102, 10, 12), (10, 1, 5)];
    assert_eq!(place(202, 101, &procs), TreePlacement::Outside);
    assert_eq!(place(201, 102, &procs), TreePlacement::Outside);
    assert_eq!(place(10, 101, &procs), TreePlacement::Outside, "the server itself");
}

#[test]
fn a_reparented_process_is_outside() {
    let procs = [(500, 1, 50), (100, 10, 10), (10, 1, 5)];
    assert_eq!(place(500, 100, &procs), TreePlacement::Outside);
}

#[test]
fn an_unreadable_or_cyclic_ancestry_refuses() {
    let unreadable = [(300, 200, 30), (100, 10, 10), (10, 1, 5)];
    assert_eq!(place(300, 100, &unreadable), TreePlacement::Outside);
    let cyclic = [(300, 300, 30), (100, 10, 10)];
    assert_eq!(place(300, 100, &cyclic), TreePlacement::Outside);
}

#[test]
fn a_deeper_chain_than_the_hop_bound_refuses() {
    let hops = MAX_ANCESTRY_HOPS as u32;
    let mut procs: Vec<(u32, u32, u64)> = vec![(1000, 10, 1000), (10, 1, 5)];
    procs.extend((1..=hops + 4).map(|n| (1000 + n, 999 + n, 1000 + u64::from(n))));
    assert_eq!(place(1003, 1000, &procs), TreePlacement::Inside, "a short chain resolves");
    assert_eq!(place(1000 + hops + 4, 1000, &procs), TreePlacement::Outside);
    assert_eq!(place(1000 + hops, 1000, &procs), TreePlacement::Inside, "the bound itself");
    assert_eq!(place(1000 + hops + 1, 1000, &procs), TreePlacement::Outside);
}

#[test]
fn pid_zero_is_never_inside_anything() {
    let procs = [(100, 10, 10), (10, 1, 5)];
    assert_eq!(place(0, 100, &procs), TreePlacement::Outside);
    assert_eq!(place(100, 0, &procs), TreePlacement::Outside);
}

#[test]
fn a_reused_pane_root_pid_is_not_the_pane_it_once_rooted() {
    let procs = [(4243, 4242, 5001), (4242, 1000, 5000), (1000, 1, 10)];
    assert_eq!(
        place_process_in_tree(
            ProcessPrincipal { pid: 4243, start_time: 5001 },
            ProcessPrincipal { pid: 4242, start_time: 900 },
            &table(&procs),
        ),
        TreePlacement::PaneRootReplaced,
        "a reused pane-root pid must not be inheritable"
    );
    assert_eq!(place(4243, 4242, &procs), TreePlacement::Inside);
}

#[test]
fn a_reaped_pane_root_fails_closed() {
    let procs = [(4243, 1, 5001)];
    assert_eq!(
        place_process_in_tree(
            ProcessPrincipal { pid: 4243, start_time: 5001 },
            ProcessPrincipal { pid: 4242, start_time: 900 },
            &table(&procs),
        ),
        TreePlacement::PaneRootGone
    );
}

#[test]
fn a_caller_pid_that_changed_hands_is_refused() {
    let procs = [(200, 100, 5000), (100, 10, 10), (10, 1, 5)];
    assert_eq!(
        place_process_in_tree(
            ProcessPrincipal { pid: 200, start_time: 20 },
            ProcessPrincipal { pid: 100, start_time: 10 },
            &table(&procs),
        ),
        TreePlacement::CallerReplaced
    );
}

#[test]
fn a_caller_that_has_exited_is_refused() {
    let procs = [(100, 10, 10), (10, 1, 5)];
    assert_eq!(
        place_process_in_tree(
            ProcessPrincipal { pid: 200, start_time: 20 },
            ProcessPrincipal { pid: 100, start_time: 10 },
            &table(&procs),
        ),
        TreePlacement::CallerReplaced
    );
}

#[test]
fn the_decision_names_every_fail_closed_shape() {
    let ancestry = table(&[(200, 100, 20), (100, 10, 10), (10, 1, 5)]);
    let inside = PeerCredentials { pid: 200, uid: 1000, start_time: Some(20) };

    assert_eq!(
        place_caller_in_pane_tree(inside, 1000, Some((100, Some(10))), &ancestry),
        Ok(())
    );
    assert_eq!(
        place_caller_in_pane_tree(
            PeerCredentials { uid: 1001, ..inside },
            1000,
            Some((100, Some(10))),
            &ancestry,
        ),
        Err(CallerRejection::ForeignUid { peer_pid: 200, uid: 1001 })
    );
    assert_eq!(
        place_caller_in_pane_tree(
            PeerCredentials { start_time: None, ..inside },
            1000,
            Some((100, Some(10))),
            &ancestry,
        ),
        Err(CallerRejection::CallerUnidentified { peer_pid: 200 }),
        "a peer whose start time was never captured is not a principal"
    );
    assert_eq!(
        place_caller_in_pane_tree(inside, 1000, None, &ancestry),
        Err(CallerRejection::PaneHasNoProcess { peer_pid: 200 })
    );
    assert_eq!(
        place_caller_in_pane_tree(inside, 1000, Some((100, None)), &ancestry),
        Err(CallerRejection::PaneRootUnidentified { peer_pid: 200, root_pid: 100 }),
        "a pane root published without a start time must not match on the pid alone"
    );
    assert_eq!(
        place_caller_in_pane_tree(inside, 1000, Some((100, Some(999))), &ancestry),
        Err(CallerRejection::PaneRootReplaced { peer_pid: 200, root_pid: 100 })
    );
    assert_eq!(
        place_caller_in_pane_tree(inside, 1000, Some((404, Some(40))), &ancestry),
        Err(CallerRejection::PaneRootGone { peer_pid: 200, root_pid: 404 })
    );
    assert_eq!(
        place_caller_in_pane_tree(peer(10), 1000, Some((100, Some(10))), &ancestry),
        Err(CallerRejection::CallerReplaced { peer_pid: 10 }),
        "the helper's peer start time is not the server's, so pid 10 reads as replaced"
    );
    assert_eq!(
        place_caller_in_pane_tree(
            PeerCredentials { pid: 10, uid: 1000, start_time: Some(5) },
            1000,
            Some((100, Some(10))),
            &ancestry,
        ),
        Err(CallerRejection::OutsidePane { peer_pid: 10 }),
        "the server itself is a live process outside every pane"
    );
}

#[test]
fn every_refusal_names_the_pane_and_the_decision() {
    for (rejection, expected) in [
        (CallerRejection::UnknownPeer, "no peer credentials"),
        (CallerRejection::ForeignUid { peer_pid: 7, uid: 1001 }, "uid 1001"),
        (CallerRejection::CallerUnidentified { peer_pid: 7 }, "already exited"),
        (CallerRejection::CallerReplaced { peer_pid: 7 }, "no longer holds the process"),
        (CallerRejection::PaneHasNoProcess { peer_pid: 7 }, "no running process"),
        (
            CallerRejection::PaneRootUnidentified { peer_pid: 7, root_pid: 42 },
            "no recorded start time",
        ),
        (CallerRejection::PaneRootGone { peer_pid: 7, root_pid: 42 }, "has exited"),
        (
            CallerRejection::PaneRootReplaced { peer_pid: 7, root_pid: 42 },
            "now belongs to another process",
        ),
        (CallerRejection::OutsidePane { peer_pid: 7 }, "not inside pane"),
    ] {
        let message = rejection.message("w1-3");
        assert!(
            message.contains("w1-3") && message.contains("ADR 0014"),
            "{rejection:?} must name the pane and the decision: {message}"
        );
        assert!(message.contains(expected), "{rejection:?} must say why: {message}");
    }
}

#[test]
fn refusals_are_worded_exactly() {
    assert_eq!(CALLER_OUTSIDE_PANE, "caller_outside_pane");
    assert_eq!(
        CallerRejection::ForeignUid { peer_pid: 7, uid: 1001 }.message("w1-3"),
        "caller pid 7 runs as uid 1001, not as this server's user, so it cannot report for pane \
         w1-3 (ADR 0014)"
    );
    assert_eq!(
        CallerRejection::PaneRootGone { peer_pid: 7, root_pid: 42 }.message("w1-3"),
        "pane w1-3's process 42 has exited, so caller pid 7 cannot be inside its process tree \
         (ADR 0014)"
    );
}

fn received() -> ZynkMessageReceivedParams {
    ZynkMessageReceivedParams {
        pane_id: "w-3".into(),
        message_id: "m".into(),
        conversation_id: "c".into(),
        conversation_seq: 1,
        runtime_session_id: "rt".into(),
        socket_namespace: "sock".into(),
        receiver_seq: None,
        timestamp: None,
        status: None,
        receiver_agent_session: None,
    }
}

#[test]
fn only_the_three_identity_methods_are_pane_bound() {
    assert_eq!(
        pane_bound_target(&Method::PaneReportAgent(PaneReportAgentParams {
            pane_id: "w-1".into(),
            source: "zynk:pi".into(),
            agent: "pi".into(),
            state: AgentState::Idle,
            message: None,
            custom_status: None,
            seq: None,
            agent_session_id: None,
            agent_session_path: None,
        })),
        Some(("pane.report_agent", "w-1"))
    );
    assert_eq!(
        pane_bound_target(&Method::PaneReportAgentSession(PaneReportAgentSessionParams {
            pane_id: "w-2".into(),
            source: "zynk:pi".into(),
            agent: "pi".into(),
            seq: None,
            agent_session_id: None,
            agent_session_path: None,
            session_start_source: None,
        })),
        Some(("pane.report_agent_session", "w-2"))
    );
    assert_eq!(
        pane_bound_target(&Method::ZynkMessageReceived(received())),
        Some(("zynk.message_received", "w-3"))
    );
    let target = || PaneTarget { pane_id: "w-1".into() };
    assert_eq!(pane_bound_target(&Method::PaneGet(target())), None);
    assert_eq!(pane_bound_target(&Method::PaneReleaseAgent(target())), None);
    assert_eq!(pane_bound_target(&Method::PaneClearAgentAuthority(target())), None);
    assert_eq!(pane_bound_target(&Method::PaneReportMetadata(target())), None);
}

#[test]
fn message_received_does_not_request_ui_changes() {
    let request = Request {
        id: "t".into(),
        method: Method::ZynkMessageReceived(ZynkMessageReceivedParams {
            pane_id: "w-1".into(),
            message_id: "msg".into(),
            conversation_id: "conv".into(),
            conversation_seq: 1,
            runtime_session_id: "rt".into(),
            socket_namespace: "sock".into(),
            receiver_seq: None,
            timestamp: None,
            status: None,
            receiver_agent_session: None,
        }),
    };
    assert!(!request_changes_ui(&request, true));
    assert!(!request_changes_ui(&request, false));
}

#[test]
fn requests_are_routed_by_their_method() {
    let routed = |method, others| route_request(&Request { id: "r".into(), method }, others);
    let route = |method| routed(method, true);
    assert!(route(Method::WorktreeCreate).deferred);
    assert!(route(Method::WorktreeRemove).deferred);
    assert!(!route(Method::Other).deferred);
    assert!(routed(Method::Other, true).changes_ui);
    assert!(!routed(Method::Other, false).changes_ui);
    assert!(!route(Method::ServerStop).ensure_default_workspace);
    assert!(!route(Method::ServerLiveHandoff).ensure_default_workspace);
    assert!(route(Method::Other).ensure_default_workspace);
}
