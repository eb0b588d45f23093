use zynk::agent_view::{plugin_source, AgentView, AgentViewState, Plugin};
use zynk::agents::{
    agent_state_label, key_bytes, prompt_bytes, runtime_hosts_agent, sent_reply, Explain,
    PromptParams, Prompted, ReadFormat, ReadParams, ReadSource, Resolved, TextView,
    PROMPT_SUBMIT_DELAY_MS,
};
use zynk::build_info::{version, BuildInputs};
use zynk::caller::{
    caller_is_inside_pane, ApiCaller, Build, CallerRejection, PeerCredentials, ProcessEntry,
};
use zynk::creation::{resolve_new_terminal_cwd, Candidate, CwdPolicy, NewWorkspaceStep, PendingCwd};
use zynk::geometry::Rect;
use zynk::git_refresh::{GitRefresh, RefreshDemand, RefreshIntervals};
use zynk::info::{pane_agent_status, AgentStatus, PlacedPane, TabLayout};
use zynk::metadata::{normalize_value, MetadataReport, TokenPatch, TokenStore};
use zynk::receipts::{finish_zynk_message_received, plan_zynk_message_received, AcceptedReceipt};
use zynk::requests::{
    runtime_workspace_close, runtime_workspace_focus, Method, ZynkMessageReceivedParams,
};
use zynk::response::{ApiError, Response};
use zynk::runtime::{Intervals, Repositories, Schedule, UpdateSwitches, WorkDone};
use zynk::session::{
    Agent, AgentState, Event, ForegroundJob, HookAuthority, ManagedAgent, Mode, Pane, PaneAlias,
    PersistedSession, Presentation, Runtime, ScrollMetrics, Session, SessionRef, SessionRefKind,
    StateLabel, Tab, Terminal, Workspace, WorktreeSpace,
};
use zynk::sidebar::{Card, SidebarView};
use zynk::tabs::{NewPane, TabCreateParams};
use zynk::titles::{
    configure_window_title, terminal_title_sidebar_changed, terminal_title_sidebar_configured,
    uses_hostname, window_title_configured, window_title_uses_terminal_title, AgentRows,
    AgentToken, TitleChanges, TitlePart,
};
use zynk::workspaces::{NewWorkspace, StartedTab, WorkspaceMoveBlockParams};

fn terminal(id: &str) -> Terminal {
    Terminal {
        id: id.into(),
        cwd: None,
        agent_name: None,
        manual_label: None,
        agent_label: None,
        known_agent: None,
        detected_agent: None,
        state: AgentState::Unknown,
        state_change_seq: None,
        managed: None,
        presentation: Presentation { title: None, display_agent: None, state_labels: Vec::new() },
        hook_authority: None,
        full_lifecycle_hook: false,
        confirmed_hook_label: None,
        persisted_session: None,
        raw_title: None,
        stripped_title: None,
        revision: 0,
        tokens: TokenStore::new(),
        runtime: None,
    }
}

fn runtime() -> Runtime {
    Runtime {
        child: None,
        exit_pending: false,
        cwd: None,
        foreground_cwd: None,
        scroll: None,
        title: None,
        title_stripped: None,
        job: None,
    }
}

fn pane(ws: &str, id: u64) -> Pane {
    Pane {
        id,
        public_id: format!("{ws}-{id}"),
        terminal_id: format!("term_{id}"),
        seen: true,
    }
}

fn tab(ws: &str, id: u64, name: Option<&str>) -> Tab {
    Tab {
        public_id: format!("{ws}:t{id}"),
        custom_name: name.map(str::to_string),
        panes: vec![pane(ws, id)],
        root_pane: id,
        focused: id,
        zoomed: false,
    }
}

fn workspace(name: &str, panes: &[u64]) -> Workspace {
    Workspace {
        id: name.into(),
        custom_name: Some(name.into()),
        auto_label: "auto".into(),
        identity_cwd: None,
        tabs: panes.iter().map(|&id| tab(name, id, None)).collect(),
        active_tab: 0,
        worktree: None,
        tokens: TokenStore::new(),
    }
}

fn session(workspaces: Vec<Workspace>) -> Session {
    let mut terminals = Vec::new();
    for ws in &workspaces {
        for tab in &ws.tabs {
            for pane in &tab.panes {
                terminals.push(terminal(&pane.terminal_id));
            }
        }
    }
    Session {
        workspaces,
        terminals,
        pane_aliases: Vec::new(),
        active: None,
        selected: 0,
        mode: Mode::Navigate,
        graphics_enabled: false,
        copy_mode_pane: None,
        events: Vec::new(),
        save_scheduled: false,
        tab_bar_stale: false,
        tab_scroll_follow_active: false,
        terminal_shutdowns: Vec::new(),
        presentation_deadline: None,
        metadata_deadline: None,
    }
}

fn term<'a>(s: &'a mut Session, id: &str) -> &'a mut Terminal {
    let i = s.find_terminal(id).expect("terminal");
    &mut s.terminals[i]
}

fn code<T>(response: &Response<T>) -> &'static str {
    match &response.body {
        Ok(_) => "ok",
        Err(e) => e.code,
    }
}

fn message<T>(response: &Response<T>) -> &str {
    match &response.body {
        Ok(_) => "",
        Err(e) => &e.message,
    }
}

fn names(s: &Session) -> Vec<String> {
    s.workspaces.iter().map(|ws| ws.display_name()).collect()
}

fn at(s: &Session, pane_id: &str) -> Result<Resolved, ApiError> {
    let (workspace, pane) = s.parse_pane_id(pane_id).expect("pane");
    let tab = s.workspaces[workspace].find_tab_index_for_pane(pane).unwrap();
    let terminal_id = s.workspaces[workspace].pane_state(pane).unwrap().terminal_id.clone();
    Ok(Resolved { workspace, tab, pane, terminal_id })
}

// --- tabs ------------------------------------------------------------------------------------

#[test]
fn api_tab_close_last_tab_closes_workspace_and_emits_both_events() {
    let mut s = session(vec![workspace("tabs", &[1])]);
    s.active = Some(0);
    let response = s.handle_tab_close("req".into(), "tabs:t1", false);
    assert_eq!(response.id, "req");
    assert_eq!(code(&response), "ok");
    assert!(s.workspaces.is_empty());
    assert!(s.active.is_none());
    assert_eq!(s.events.len(), 2);
    assert!(matches!(
        &s.events[0],
        Event::TabClosed { tab_id, workspace_id } if tab_id == "tabs:t1" && workspace_id == "tabs"
    ));
    assert!(matches!(
        &s.events[1],
        Event::WorkspaceClosed { workspace_id } if workspace_id == "tabs"
    ));
    assert!(s.terminals.is_empty());
    assert_eq!(s.terminal_shutdowns, vec!["term_1".to_string()]);
}

#[test]
fn closing_the_last_tab_of_a_worktree_group_needs_confirmation() {
    let mut s = session(vec![workspace("tabs", &[1])]);
    let response = s.handle_tab_close("req".into(), "tabs:t1", true);
    assert_eq!(code(&response), "confirmation_required");
    assert_eq!(message(&response), "closing this tab would close a worktree group");
    assert_eq!(s.workspaces.len(), 1);
    assert!(s.events.is_empty());
    let response = s.handle_tab_close("req".into(), "nowhere", true);
    assert_eq!(message(&response), "tab nowhere not found");
}

#[test]
fn api_tab_move_reorders_tabs_in_target_workspace() {
    let mut s = session(vec![workspace("tabs", &[1, 2, 3])]);
    s.active = Some(0);
    let response = s.handle_tab_move("req".into(), "tabs:t1", 3);
    let tabs = response.body.unwrap();
    assert_eq!(s.workspaces[0].tabs[2].root_pane, 1);
    assert_eq!(tabs[2].tab_id, "tabs:t1");
    assert_eq!(tabs[2].number, 3);
    assert_eq!(tabs[2].label, "3");
    assert_eq!(s.workspaces[0].active_tab, 2, "the active tab stays the same tab");
    assert!(s.tab_bar_stale && s.tab_scroll_follow_active && s.save_scheduled);
    assert_eq!(s.events.len(), 1);
    assert!(matches!(
        &s.events[0],
        Event::TabMoved { tab_id, workspace_id, insert_index: 3, tabs }
            if tab_id == "tabs:t1" && workspace_id == "tabs" && tabs[2].tab_id == "tabs:t1"
    ));
    let refused = s.handle_tab_move("req".into(), "tabs:t1", 4);
    assert_eq!(code(&refused), "tab_move_failed");
    assert_eq!(message(&refused), "insert_index 4 is out of bounds");
    let in_place = s.handle_tab_move("req".into(), "tabs:t1", 3);
    assert_eq!(code(&in_place), "ok");
    assert_eq!(s.events.len(), 1);
}

fn session_with_tabs() -> Session {
    let mut ws = workspace("tabs", &[11, 12, 13]);
    for (tab, name) in ws.tabs.iter_mut().zip(["a", "b", "c"]) {
        tab.custom_name = Some(name.into());
    }
    let mut s = session(vec![workspace("background", &[1]), ws]);
    s.active = Some(1);
    s.selected = 1;
    s
}

#[test]
fn api_tab_rename_reflows_active_tab_bar() {
    for tab_idx in [0_usize, 2] {
        let mut s = session_with_tabs();
        let tab_id = s.workspaces[1].tabs[tab_idx].public_id.clone();
        let focused_pane = s.workspaces[1].focused_pane_id();
        let label = "a much longer custom tab label";
        let response = s.handle_tab_rename("rename".into(), &tab_id, label.into());
        assert_eq!(response.id, "rename");
        let tab = response.body.unwrap();
        assert_eq!(tab.tab_id, tab_id);
        assert_eq!(tab.workspace_id, "tabs");
        assert_eq!(tab.label, label);
        assert_eq!(tab.focused, tab_idx == 0);
        assert_eq!(s.active, Some(1));
        assert_eq!(s.selected, 1);
        assert_eq!(s.workspaces[1].active_tab, 0);
        assert_eq!(s.workspaces[1].focused_pane_id(), focused_pane);
        assert!(!s.tab_scroll_follow_active);
        assert!(s.tab_bar_stale, "the tab bar must reflow immediately");
        assert_eq!(s.events.len(), 1);
        assert!(matches!(
            &s.events[0],
            Event::TabRenamed { tab_id: told, workspace_id, label: named }
                if told == &tab_id && workspace_id == "tabs" && named == label
        ));
    }
}

#[test]
fn m824_background_tab_rename_preserves_active_cache() {
    let mut s = session_with_tabs();
    let focused_pane = s.workspaces[1].focused_pane_id();
    let label = "background tab renamed";
    let response = s.handle_tab_rename("background".into(), "background:t1", label.into());
    assert_eq!(response.id, "background");
    let tab = response.body.unwrap();
    assert_eq!(tab.tab_id, "background:t1");
    assert_eq!(tab.label, label);
    assert!(!tab.focused);
    assert_eq!(s.workspaces[0].tabs[0].custom_name.as_deref(), Some(label));
    assert!(!s.tab_bar_stale, "background rename must not recompute the active cache");
    assert_eq!(s.active, Some(1));
    assert_eq!(s.selected, 1);
    assert_eq!(s.workspaces[1].active_tab, 0);
    assert_eq!(s.workspaces[1].focused_pane_id(), focused_pane);
    assert!(!s.tab_scroll_follow_active);
    assert_eq!(s.events.len(), 1);
    assert!(matches!(
        &s.events[0],
        Event::TabRenamed { tab_id, workspace_id, label: named }
            if tab_id == "background:t1" && workspace_id == "background" && named == label
    ));
}

#[test]
fn m824_invalid_tab_rename_preserves_cache_name_and_focus() {
    let mut s = session_with_tabs();
    let focused_pane = s.workspaces[1].focused_pane_id();
    let tab_names = |s: &Session| -> Vec<Option<String>> {
        s.workspaces[1].tabs.iter().map(|tab| tab.custom_name.clone()).collect()
    };
    let before = tab_names(&s);
    let response =
        s.handle_tab_rename("invalid".into(), "missing-tab", "must not rename anything".into());
    assert_eq!(response.id, "invalid");
    assert_eq!(code(&response), "tab_not_found");
    assert_eq!(message(&response), "tab missing-tab not found");
    assert_eq!(tab_names(&s), before);
    assert!(!s.tab_bar_stale);
    assert_eq!(s.active, Some(1));
    assert_eq!(s.selected, 1);
    assert_eq!(s.workspaces[1].active_tab, 0);
    assert_eq!(s.workspaces[1].focused_pane_id(), focused_pane);
    assert!(!s.tab_scroll_follow_active);
    assert!(s.events.is_empty());
}

#[test]
fn api_tab_close_clears_copy_mode_for_removed_panes() {
    let mut s = session(vec![workspace("tabs", &[1, 2])]);
    s.active = Some(0);
    s.copy_mode_pane = Some(2);
    let response = s.handle_tab_close("req".into(), "tabs:t2", false);
    assert_eq!(code(&response), "ok");
    assert!(s.copy_mode_pane.is_none());
    assert_eq!(s.workspaces[0].tabs.len(), 1);
    assert_eq!(s.terminals.len(), 1);
    assert_eq!(s.terminal_shutdowns, vec!["term_2".to_string()]);
    assert!(s.save_scheduled);
}

#[test]
fn a_terminal_shown_elsewhere_survives_a_closed_tab() {
    let mut s = session(vec![workspace("tabs", &[1, 2])]);
    s.workspaces[0].tabs[1].panes[0].terminal_id = "term_1".into();
    s.workspaces[0].active_tab = 1;
    s.copy_mode_pane = Some(1);
    s.handle_tab_close("req".into(), "tabs:t2", false);
    assert!(s.find_terminal("term_1").is_some());
    assert!(s.terminal_shutdowns.is_empty());
    assert_eq!(s.workspaces[0].active_tab, 0);
    assert_eq!(s.copy_mode_pane, Some(1));
}

#[test]
fn tabs_are_listed_got_and_focused() {
    let mut s = session_with_tabs();
    let all = s.handle_tab_list("l".into(), &None).body.unwrap();
    assert_eq!(
        all.iter().map(|tab| tab.tab_id.as_str()).collect::<Vec<_>>(),
        ["background:t1", "tabs:t11", "tabs:t12", "tabs:t13"]
    );
    let own = s.handle_tab_list("l".into(), &Some("tabs".into())).body.unwrap();
    assert_eq!(own.len(), 3);
    let none = s.handle_tab_list("l".into(), &Some("gone".into()));
    assert_eq!(message(&none), "workspace gone not found");
    let got = s.handle_tab_get("g".into(), "tabs:t12").body.unwrap();
    assert_eq!((got.number, got.label.as_str(), got.focused), (2, "b", false));
    s.workspaces[0].tabs[0].panes[0].seen = false;
    let focused = s.handle_tab_focus("f".into(), "background:t1").body.unwrap();
    assert!(focused.focused);
    assert_eq!((s.active, s.selected), (Some(0), 0));
    assert!(s.workspaces[0].tabs[0].panes[0].seen);
    assert_eq!(code(&s.handle_tab_focus("f".into(), "gone")), "tab_not_found");
}

fn new_pane(id: u64, ws: &str) -> NewPane {
    NewPane {
        pane: id,
        public_pane_id: format!("{ws}-{id}"),
        public_tab_id: format!("{ws}:t{id}"),
        terminal: terminal(&format!("term_{id}")),
    }
}

#[test]
fn tabs_are_created_where_asked() {
    let mut s = session(vec![workspace("one", &[1]), workspace("two", &[2])]);
    s.active = Some(0);
    s.pane_aliases.push(PaneAlias { alias: "two-9".into(), pane: 1 });
    term(&mut s, "term_2").cwd = Some("/two".into());
    let params = |workspace_id: Option<&str>, focus| TabCreateParams {
        workspace_id: workspace_id.map(str::to_string),
        cwd: None,
        focus,
        label: Some("logs".into()),
    };
    let plan = s.plan_tab_create(&params(Some("two"), false)).unwrap();
    assert_eq!((plan.workspace, plan.follow.as_deref()), (1, Some("/two")));
    let created = s
        .handle_tab_create("c".into(), params(Some("two"), false), Ok(new_pane(9, "two")))
        .body
        .unwrap();
    assert_eq!(created.tab.label, "logs");
    assert_eq!(created.tab.number, 2);
    assert_eq!(created.root_pane.pane_id, "two-9");
    assert_eq!(created.root_pane.terminal_id, "term_9");
    assert_eq!((s.active, s.workspaces[1].active_tab), (Some(0), 0));
    assert!(s.pane_aliases.is_empty());
    assert_eq!(s.parse_pane_id("two-9"), Some((1, 9)));
    assert!(matches!(&s.events[0], Event::TabCreated { tab } if tab.tab_id == "two:t9"));
    assert!(matches!(&s.events[1], Event::PaneCreated { pane } if pane.pane_id == "two-9"));
    s.handle_tab_create("c".into(), params(Some("two"), true), Ok(new_pane(10, "two")));
    assert_eq!((s.active, s.selected, s.workspaces[1].active_tab), (Some(1), 1, 2));
    assert_eq!(s.mode, Mode::Terminal);
    let failed = s.handle_tab_create("c".into(), params(None, true), Err("no pty".into()));
    assert_eq!((code(&failed), message(&failed)), ("tab_create_failed", "no pty"));
    s.active = None;
    let nowhere = s.handle_tab_create("c".into(), params(None, true), Err("no pty".into()));
    assert_eq!((code(&nowhere), message(&nowhere)), ("workspace_not_found", "no active workspace"));
    s.active = Some(7);
    let gone = s.plan_tab_create(&params(None, true)).unwrap_err();
    assert_eq!((gone.code, gone.message.as_str()), ("tab_create_failed", "workspace disappeared"));
}

// --- workspaces ------------------------------------------------------------------------------

fn metadata_session() -> Session {
    let mut s = session(vec![workspace("active", &[1]), workspace("target", &[2])]);
    s.active = Some(0);
    s
}

fn report(tokens: &[(&str, Option<&str>)]) -> MetadataReport {
    MetadataReport {
        source: "user:build".into(),
        tokens: tokens
            .iter()
            .map(|(key, value)| TokenPatch {
                key: key.to_string(),
                value: value.map(str::to_string),
            })
            .collect(),
        seq: None,
        ttl_ms: None,
    }
}

fn tokens(s: &Session, ws: usize) -> Vec<(String, String)> {
    let mut all: Vec<_> = s
        .workspace_info(ws)
        .tokens
        .iter()
        .map(|token| (token.key.clone(), token.value.clone()))
        .collect();
    all.sort();
    all
}

fn value(s: &Session, ws: usize, key: &str) -> Option<String> {
    s.workspaces[ws].tokens.value(key).cloned()
}

fn send(s: &mut Session, report: &MetadataReport) -> Response<()> {
    s.handle_workspace_report_metadata("m828a-request".into(), "target", report, 1_000)
}

fn ok(response: Response<()>) {
    assert_eq!(response.id, "m828a-request");
    assert_eq!(code(&response), "ok");
}

fn pairs(expected: &[(&str, &str)]) -> Vec<(String, String)> {
    expected.iter().map(|(k, v)| (k.to_string(), v.to_string())).collect()
}

#[test]
fn workspace_metadata_tokens_patch_clear_and_emit_snapshot() {
    let mut s = metadata_session();
    let mut expected = Vec::new();
    for patch in [("branch", Some("main")), ("build", Some("ok")), ("branch", None)] {
        ok(send(&mut s, &report(&[patch])));
        expected.push(format!("WorkspaceMetadataUpdated {{ workspace: {:?} }}", s.workspace_info(1)));
    }
    let events: Vec<String> = s.events.iter().map(|event| format!("{event:?}")).collect();
    assert_eq!(events, expected);
    let told: Vec<Vec<(String, String)>> = s
        .events
        .iter()
        .map(|event| match event {
            Event::WorkspaceMetadataUpdated { workspace } => {
                assert_eq!(workspace.workspace_id, "target");
                let mut all: Vec<_> = workspace
                    .tokens
                    .iter()
                    .map(|token| (token.key.clone(), token.value.clone()))
                    .collect();
                all.sort();
                all
            }
            other => panic!("unexpected {other:?}"),
        })
        .collect();
    assert_eq!(
        told,
        vec![
            pairs(&[("branch", "main")]),
            pairs(&[("branch", "main"), ("build", "ok")]),
            pairs(&[("build", "ok")]),
        ]
    );
    assert_eq!(tokens(&s, 1), pairs(&[("build", "ok")]));
    assert_eq!(tokens(&s, 0), pairs(&[]));
    assert_eq!(s.active, Some(0));
    let seen = s.events.len();
    let mut same = report(&[("build", Some("ok"))]);
    same.seq = Some(5);
    ok(send(&mut s, &same));
    let mut stale = report(&[("build", Some("stale"))]);
    stale.seq = Some(5);
    ok(send(&mut s, &stale));
    assert_eq!(tokens(&s, 1), pairs(&[("build", "ok")]));
    assert_eq!(s.events.len(), seen);
    let got = s.handle_workspace_get("g".into(), "target").body.unwrap();
    assert_eq!(got.tokens.len(), 1);
    assert_eq!((got.tokens[0].key.as_str(), got.tokens[0].value.as_str()), ("build", "ok"));
    let list = s.handle_workspace_list("l".into()).body.unwrap();
    assert_eq!(format!("{:?}", list[1].tokens), format!("{:?}", got.tokens));
}

#[test]
fn m828a_workspace_metadata_validation_is_atomic() {
    let mut s = metadata_session();
    let mut first = report(&[("kept", Some("original"))]);
    first.seq = Some(1);
    ok(send(&mut s, &first));
    let many: Vec<(String, Option<&str>)> = (0..17).map(|i| (format!("k{i}"), Some("x"))).collect();
    let many: Vec<(&str, Option<&str>)> = many.iter().map(|(k, v)| (k.as_str(), *v)).collect();
    let long_key = "k".repeat(33);
    let base = || report(&[("kept", Some("must not apply"))]);
    let sourced = |source: &str| MetadataReport { source: source.to_string(), ..base() };
    let timed = |ttl: u64| MetadataReport { ttl_ms: Some(ttl), ..base() };
    let invalid = vec![
        (sourced(" "), "invalid_metadata_source"),
        (sourced(&"s".repeat(81)), "invalid_metadata_source"),
        (sourced("bad/source"), "invalid_metadata_source"),
        (sourced("u\u{e9}"), "invalid_metadata_source"),
        (timed(0), "invalid_metadata_ttl"),
        (timed(86_400_001), "invalid_metadata_ttl"),
        (report(&[]), "invalid_metadata_token"),
        (report(&many), "invalid_metadata_token"),
        (report(&[("", Some("x"))]), "invalid_metadata_token"),
        (report(&[("a.b", Some("x"))]), "invalid_metadata_token"),
        (report(&[(&long_key, Some("x"))]), "invalid_metadata_token"),
        (
            report(&[("\u{e9}", Some("x")), ("kept", Some("must not apply"))]),
            "invalid_metadata_token",
        ),
    ];
    for (index, (mut bad, expected)) in invalid.into_iter().enumerate() {
        let before = tokens(&s, 1);
        let seen = s.events.len();
        bad.seq = Some(index as u64 + 2);
        let response = send(&mut s, &bad);
        assert_eq!(code(&response), expected, "row {index}");
        assert_eq!(tokens(&s, 1), before, "row {index}");
        assert_eq!(s.events.len(), seen, "row {index}");
        let retried = format!("retry-{index}");
        let mut retry = report(&[("kept", Some(&retried))]);
        retry.seq = Some(index as u64 + 2);
        ok(send(&mut s, &retry));
        assert_eq!(value(&s, 1, "kept"), Some(retried));
    }
    let mut stale_invalid = report(&[]);
    stale_invalid.seq = Some(0);
    assert_eq!(code(&send(&mut s, &stale_invalid)), "invalid_metadata_token");
    let legal: Vec<String> = (0..16).map(|i| format!("legal-{i}")).collect();
    let legal: Vec<(&str, Option<&str>)> = legal.iter().map(|k| (k.as_str(), Some("x"))).collect();
    let mut params = report(&legal);
    params.source = "s".repeat(80);
    params.ttl_ms = Some(86_400_000);
    ok(send(&mut s, &params));
    let key = "k".repeat(32);
    let wide = "\u{754c}".repeat(81);
    ok(send(
        &mut s,
        &report(&[
            (&key, Some("value")),
            ("unicode", Some(&wide)),
            ("sanitized", Some("  hi\u{0}\tthere  ")),
            ("cleared", Some("\u{0}\n ")),
        ]),
    ));
    assert_eq!(value(&s, 1, &key).as_deref(), Some("value"));
    assert_eq!(value(&s, 1, "unicode"), Some("\u{754c}".repeat(80)));
    assert_eq!(value(&s, 1, "sanitized").as_deref(), Some("hithere"));
    assert!(value(&s, 1, "cleared").is_none());
    let mut shortest = report(&[("lower", Some("accepted"))]);
    shortest.ttl_ms = Some(1);
    ok(send(&mut s, &shortest));
    assert_eq!(value(&s, 1, "lower").as_deref(), Some("accepted"));
    let missing = s.handle_workspace_report_metadata("m".into(), "gone", &base(), 1_000);
    assert_eq!(message(&missing), "workspace gone not found");
}

#[test]
fn m828a_workspace_token_resource_limit_counts_the_net_patch() {
    let mut s = metadata_session();
    for batch in 0..2_u64 {
        let keys: Vec<String> = (batch * 16..(batch + 1) * 16).map(|i| format!("k{i:02}")).collect();
        let entries: Vec<(&str, Option<&str>)> =
            keys.iter().map(|k| (k.as_str(), Some("x"))).collect();
        let mut params = report(&entries);
        params.seq = Some(batch + 1);
        ok(send(&mut s, &params));
    }
    assert_eq!(tokens(&s, 1).len(), 32);
    let before = tokens(&s, 1);
    let seen = s.events.len();
    let mut params = report(&[("extra", Some("x"))]);
    params.seq = Some(3);
    let refused = send(&mut s, &params);
    assert_eq!(code(&refused), "metadata_token_limit");
    assert_eq!(message(&refused), "workspace metadata may contain at most 32 tokens");
    assert_eq!(tokens(&s, 1), before);
    assert_eq!(s.events.len(), seen);
    params.seq = Some(2);
    ok(send(&mut s, &params));
    assert_eq!(tokens(&s, 1), before);
    let mut swap = report(&[("extra", Some("x")), ("k31", None)]);
    swap.seq = Some(3);
    // Adding goes before clearing, so the net count is what is held to the limit.
    ok(send(&mut s, &swap));
    assert_eq!(tokens(&s, 1).len(), 32);
    assert_eq!(value(&s, 1, "extra").as_deref(), Some("x"));
    assert!(value(&s, 1, "k31").is_none());
}

#[test]
fn m828a_workspace_sequences_are_per_source_and_survive_clear() {
    let mut s = metadata_session();
    let from = |source: &str, seq: Option<u64>, key: &str, value: Option<&str>| MetadataReport {
        source: source.into(),
        seq,
        ..report(&[(key, value)])
    };
    ok(send(&mut s, &from("user:build", Some(0), "key", Some("first"))));
    assert_eq!(value(&s, 1, "key").as_deref(), Some("first"));
    let seen = s.events.len();
    ok(send(&mut s, &from("user:build", Some(0), "key", Some("repeat"))));
    assert_eq!(value(&s, 1, "key").as_deref(), Some("first"));
    assert_eq!(s.events.len(), seen);
    ok(send(&mut s, &from("user:build", Some(2), "key", Some("newer"))));
    ok(send(&mut s, &from("user:build", Some(1), "key", Some("older"))));
    assert_eq!(value(&s, 1, "key").as_deref(), Some("newer"));
    ok(send(&mut s, &from("user:other", Some(0), "key", Some("other"))));
    assert_eq!(value(&s, 1, "key").as_deref(), Some("other"));
    ok(send(&mut s, &from("user:build", None, "key", Some("unsequenced"))));
    ok(send(&mut s, &from("user:build", Some(1), "key", Some("stale after unsequenced"))));
    assert_eq!(value(&s, 1, "key").as_deref(), Some("unsequenced"));
    for index in 0..30 {
        ok(send(&mut s, &from(&format!("producer:{index}"), Some(0), "absent", None)));
    }
    ok(send(&mut s, &from("overflow", None, "extra", Some("unsequenced"))));
    let overflow = from("overflow", Some(0), "extra", Some("unsequenced"));
    let refused = send(&mut s, &overflow);
    assert_eq!(code(&refused), "metadata_sequence_source_limit");
    assert_eq!(message(&refused), "workspace metadata may track at most 32 sequenced sources");
    let mut cleared = report(&[("key", None), ("extra", None)]);
    cleared.seq = Some(3);
    ok(send(&mut s, &cleared));
    assert_eq!(tokens(&s, 1), pairs(&[]));
    assert_eq!(code(&send(&mut s, &overflow)), "metadata_sequence_source_limit");
    let mut due = from("user:build", Some(4), "due", Some("x"));
    due.ttl_ms = Some(50);
    ok(send(&mut s, &due));
    let deadline = s.metadata_deadline.expect("workspace deadline");
    s.expire_metadata_at(&vec![], deadline);
    assert_eq!(tokens(&s, 1), pairs(&[]));
    assert_eq!(code(&send(&mut s, &overflow)), "metadata_sequence_source_limit");
    ok(send(&mut s, &from("user:build", Some(5), "key", Some("still accepted"))));
    assert_eq!(value(&s, 1, "key").as_deref(), Some("still accepted"));
}

#[test]
fn m828a_workspace_report_is_presentation_only_and_follows_workspace_identity() {
    let mut s = metadata_session();
    let hook = || HookAuthority {
        source: "zynk:pi".into(),
        agent_label: "pi".into(),
        session_ref: None,
    };
    term(&mut s, "term_2").hook_authority = Some(hook());
    ok(send(&mut s, &report(&[("agent", Some("not-an-identity"))])));
    let kept = term(&mut s, "term_2").hook_authority.as_ref().unwrap();
    assert_eq!((kept.source.as_str(), kept.agent_label.as_str()), ("zynk:pi", "pi"));
    assert!(term(&mut s, "term_2").persisted_session.is_none());
    assert_eq!(s.active, Some(0));
    assert!(!s.save_scheduled);
    s.handle_workspace_move("m".into(), "target", 0);
    let got = s.handle_workspace_get("g".into(), "target").body.unwrap();
    assert_eq!(got.workspace_id, "target");
    assert_eq!(got.number, 1);
    assert_eq!(tokens(&s, 0), pairs(&[("agent", "not-an-identity")]));
    assert_eq!(tokens(&s, 1), pairs(&[]));
    assert_eq!(s.active, Some(1), "the active workspace stays the same");
}

#[test]
fn workspace_token_ttl_expires_through_runtime_and_emits_update() {
    let mut s = metadata_session();
    let mut first = report(&[("first", Some("due"))]);
    first.ttl_ms = Some(1000);
    first.seq = Some(3);
    ok(send(&mut s, &first));
    let first_deadline = s.workspaces[1].tokens.next_expiry().unwrap();
    assert_eq!(s.metadata_deadline, Some(first_deadline));
    let mut second = report(&[("second", Some("also due"))]);
    second.ttl_ms = Some(2000);
    second.seq = Some(7);
    ok(s.handle_workspace_report_metadata("m828a-request".into(), "active", &second, 1_000));
    let second_deadline = s.workspaces[0].tokens.next_expiry().unwrap();
    assert!(second_deadline > first_deadline);
    assert_eq!(s.metadata_deadline, Some(first_deadline));
    let seen = s.events.len();
    let mut state = schedule();
    state.agent_metadata_deadline = s.metadata_deadline;
    assert!(!state.due_work(first_deadline - 1).expire_metadata);
    assert!(!state.expire_due_metadata(first_deadline - 1, None));
    s.expire_metadata_at(&vec![], first_deadline - 1);
    assert_eq!(tokens(&s, 1), pairs(&[("first", "due")]));
    assert_eq!(tokens(&s, 0), pairs(&[("second", "also due")]));
    assert_eq!(s.events.len(), seen);
    let now = second_deadline + 1;
    s.expire_metadata_at(&vec![], now);
    assert_eq!(tokens(&s, 0), pairs(&[]));
    assert_eq!(tokens(&s, 1), pairs(&[]));
    assert_eq!(s.metadata_deadline, None);
    assert_eq!(s.workspaces[0].tokens.sequences[0].seq, 7);
    assert_eq!(s.workspaces[1].tokens.sequences[0].seq, 3);
    let told: Vec<&str> = s.events[seen..]
        .iter()
        .map(|event| match event {
            Event::WorkspaceMetadataUpdated { workspace } => workspace.workspace_id.as_str(),
            other => panic!("unexpected {other:?}"),
        })
        .collect();
    assert_eq!(told, ["active", "target"]);
    for (index, event) in s.events[seen..].iter().enumerate() {
        assert_eq!(
            format!("{event:?}"),
            format!("WorkspaceMetadataUpdated {{ workspace: {:?} }}", s.workspace_info(index))
        );
    }
    assert!(state.expire_due_metadata(now, s.metadata_deadline));
    assert!(!state.expire_due_metadata(now, s.metadata_deadline));
    let after = s.events.len();
    s.expire_metadata_at(&vec![], now);
    assert_eq!(s.events.len(), after);
}

#[test]
fn m828b_pane_expiry_sweeps_at_now_and_preserves_workspace_and_presentation_order() {
    let mut s = session(vec![workspace("test", &[1]), workspace("later-pane", &[2])]);
    s.active = Some(0);
    for (id, ttl) in [("term_1", 10_000), ("term_2", 20_000)] {
        let mut due = report(&[("build", Some("due"))]);
        due.source = "user:tokens".into();
        due.ttl_ms = Some(ttl);
        let t = term(&mut s, id);
        assert!(t.tokens.report(&due, "pane", 0).unwrap());
        t.revision += 1;
    }
    let mut status = report(&[("status", Some("due"))]);
    status.ttl_ms = Some(25_000);
    s.presentation_deadline = Some(30_000);
    term(&mut s, "term_1").presentation.title = Some("temporary title".into());
    ok(s.handle_workspace_report_metadata("m828a-request".into(), "test", &status, 0));
    assert_eq!(term(&mut s, "term_1").tokens.next_expiry(), Some(10_000));
    assert_eq!(term(&mut s, "term_2").tokens.next_expiry(), Some(20_000));
    assert_eq!(s.metadata_deadline, Some(10_000));
    let seen = s.events.len();
    s.presentation_deadline = None;
    term(&mut s, "term_1").presentation.title = None;
    s.expire_metadata_at(&vec![(0, 1)], 30_001);
    for id in ["term_1", "term_2"] {
        assert!(term(&mut s, id).tokens.tokens.is_empty());
        assert_eq!(term(&mut s, id).tokens.next_expiry(), None);
        assert_eq!(term(&mut s, id).revision, 2);
    }
    assert!(tokens(&s, 0).is_empty());
    assert_eq!(s.metadata_deadline, None);
    assert_eq!(s.events.len(), seen + 4);
    assert!(matches!(
        &s.events[seen],
        Event::PaneAgentStatusChanged { pane_id, title: None, .. } if pane_id == "test-1"
    ));
    assert!(matches!(
        &s.events[seen + 1],
        Event::PaneUpdated { pane } if pane.pane_id == "test-1" && pane.revision == 2
    ));
    assert!(matches!(
        &s.events[seen + 2],
        Event::PaneUpdated { pane } if pane.pane_id == "later-pane-2" && pane.tokens.is_empty()
    ));
    assert!(matches!(
        &s.events[seen + 3],
        Event::WorkspaceMetadataUpdated { workspace } if workspace.workspace_id == "test"
    ));
    for (index, (ws, pane)) in [(0, 1), (1, 2)].into_iter().enumerate() {
        assert_eq!(
            format!("{:?}", s.events[seen + 1 + index]),
            format!("PaneUpdated {{ pane: {:?} }}", s.pane_info(ws, pane).unwrap())
        );
    }
    assert_eq!(
        format!("{:?}", s.events[seen + 3]),
        format!("WorkspaceMetadataUpdated {{ workspace: {:?} }}", s.workspace_info(0))
    );
    let after = s.events.len();
    s.expire_metadata_at(&vec![], 30_001);
    assert_eq!(s.events.len(), after);
    assert_eq!(term(&mut s, "term_1").revision, 2);
    assert_eq!(term(&mut s, "term_2").revision, 2);
}

#[test]
fn values_are_kept_printable_trimmed_and_short() {
    let kept = |text: &str| normalize_value(&Some(text.to_string()));
    assert_eq!(kept(" a\u{7f}b\u{85}c ").as_deref(), Some("abc"));
    assert_eq!(kept("\t"), None);
    assert_eq!(kept(&"x".repeat(90)), Some("x".repeat(80)));
    assert_eq!(normalize_value(&None), None);
}

#[test]
fn api_workspace_close_closes_linked_worktree_workspace_only() {
    let mut s = session(vec![workspace("issue", &[1])]);
    s.workspaces[0].worktree = Some(WorktreeSpace {
        key: "repo-key".into(),
        label: "zynk".into(),
        repo_root: "/repo/zynk".into(),
        checkout_path: "/repo/zynk-issue".into(),
        is_linked_worktree: true,
    });
    let told = s.workspace_info(0).worktree.unwrap();
    assert_eq!((told.repo_key.as_str(), told.is_linked_worktree), ("repo-key", true));
    let response = s.handle_workspace_close("req".into(), "issue");
    assert_eq!(response.id, "req");
    assert_eq!(code(&response), "ok");
    assert!(s.workspaces.is_empty());
    assert!(matches!(
        &s.events[0],
        Event::WorkspaceClosed { workspace_id } if workspace_id == "issue"
    ));
}

#[test]
fn closing_keeps_the_active_workspace_active() {
    let mut s = session(vec![workspace("a", &[1]), workspace("b", &[2]), workspace("c", &[3])]);
    s.active = Some(2);
    s.handle_workspace_close("r".into(), "a");
    assert_eq!((s.active, s.selected), (Some(1), 0));
    assert_eq!(s.workspaces[1].id, "c");
    s.handle_workspace_close("r".into(), "c");
    assert_eq!((s.active, s.selected), (Some(0), 0));
    let missing = s.handle_workspace_close("r".into(), "c");
    assert_eq!(message(&missing), "workspace c not found");
}

#[test]
fn api_workspace_move_reorders_workspaces() {
    let mut s = session(vec![workspace("one", &[1]), workspace("two", &[2]), workspace("three", &[3])]);
    s.active = Some(0);
    let workspaces = s.handle_workspace_move("req".into(), "one", 3).body.unwrap();
    assert_eq!(workspaces[2].workspace_id, "one");
    assert_eq!(s.workspaces[2].display_name(), "one");
    assert_eq!((s.active, s.selected), (Some(2), 2));
    assert_eq!(s.events.len(), 1);
    assert!(matches!(
        &s.events[0],
        Event::WorkspaceMoved { workspace_id, insert_index: 3, workspaces }
            if workspace_id == "one" && workspaces[2].workspace_id == "one"
    ));
    let refused = s.handle_workspace_move("req".into(), "one", 4);
    assert_eq!(code(&refused), "workspace_move_failed");
    assert_eq!(message(&refused), "insert_index 4 is out of bounds");
}

#[test]
fn api_workspace_move_block_reorders_atomically() {
    let mut s = session(vec![
        workspace("child", &[1]),
        workspace("normal", &[2]),
        workspace("parent", &[3]),
        workspace("tail", &[4]),
    ]);
    s.active = Some(0);
    s.selected = 3;
    let block = |ids: &[&str], before: Option<&str>| WorkspaceMoveBlockParams {
        workspace_ids: ids.iter().map(|id| id.to_string()).collect(),
        before_workspace_id: before.map(str::to_string),
    };
    let workspaces = s
        .handle_workspace_move_block("req".into(), block(&["parent", "child"], Some("tail")))
        .body
        .unwrap();
    assert_eq!(names(&s), ["normal", "parent", "child", "tail"]);
    assert_eq!(workspaces[1].workspace_id, "parent");
    assert_eq!(workspaces[2].workspace_id, "child");
    assert_eq!((s.active, s.selected), (Some(2), 3));
    assert!(matches!(
        &s.events[0],
        Event::WorkspaceReordered { workspace_ids, before_workspace_id, workspaces }
            if workspace_ids == &["parent", "child"]
                && before_workspace_id.as_deref() == Some("tail")
                && workspaces[1].workspace_id == "parent"
    ));
    for (ids, before, expected) in [
        (vec![], None, "workspace_ids must not be empty"),
        (vec!["gone"], None, "workspace gone not found"),
        (vec!["tail", "tail"], None, "workspace tail appears more than once"),
        (vec!["tail"], Some("gone"), "workspace gone not found"),
        (
            vec!["tail"],
            Some("tail"),
            "before_workspace_id must not be part of workspace_ids",
        ),
    ] {
        let refused = s.handle_workspace_move_block("req".into(), block(&ids, before));
        assert_eq!(message(&refused), expected);
    }
    let in_place = s.handle_workspace_move_block("req".into(), block(&["child", "tail"], None));
    assert_eq!(code(&in_place), "ok");
    assert_eq!(s.events.len(), 1);
    s.handle_workspace_move_block("req".into(), block(&["normal"], None));
    assert_eq!(names(&s), ["parent", "child", "tail", "normal"]);
}

#[test]
fn api_workspace_move_noop_does_not_emit_event() {
    let mut s = session(vec![workspace("one", &[1]), workspace("two", &[2])]);
    let workspaces = s.handle_workspace_move("req".into(), "one", 1).body.unwrap();
    assert_eq!(workspaces[0].workspace_id, "one");
    assert!(s.events.is_empty());
}

#[test]
fn workspaces_are_created_renamed_and_focused() {
    let mut s = session(vec![]);
    let made = |id: &str, pane: u64| NewWorkspace {
        id: id.into(),
        auto_label: "dir".into(),
        identity_cwd: Some("/dir".into()),
        pane: new_pane(pane, id),
    };
    let created =
        s.handle_workspace_create("c".into(), None, false, Ok(made("w1", 1))).body.unwrap();
    assert_eq!(created.workspace.label, "dir");
    assert_eq!((s.active, s.mode), (Some(0), Mode::Terminal), "nothing else had the focus");
    let created = s
        .handle_workspace_create("c".into(), Some("named".into()), false, Ok(made("w2", 2)))
        .body
        .unwrap();
    assert_eq!(created.workspace.label, "named");
    assert_eq!(created.tab.label, "1");
    assert_eq!(created.root_pane.pane_id, "w2-2");
    assert_eq!(s.active, Some(0));
    assert_eq!(s.events.len(), 6);
    assert!(matches!(
        &s.events[3],
        Event::WorkspaceCreated { workspace } if workspace.workspace_id == "w2"
    ));
    let failed = s.handle_workspace_create("c".into(), None, true, Err("no pty".into()));
    assert_eq!((code(&failed), message(&failed)), ("workspace_create_failed", "no pty"));
    let renamed = s.handle_workspace_rename("r".into(), "w1", "first".into()).body.unwrap();
    assert_eq!(renamed.label, "first");
    assert!(matches!(
        s.events.last().unwrap(),
        Event::WorkspaceRenamed { workspace_id, label } if workspace_id == "w1" && label == "first"
    ));
    assert_eq!(code(&s.handle_workspace_rename("r".into(), "w9", "x".into())), "workspace_not_found");
    let focused = s.handle_workspace_focus("f".into(), "w2").body.unwrap();
    assert!(focused.focused);
    assert_eq!(focused.active_tab_id, "w2:t2");
    assert_eq!((focused.pane_count, focused.tab_count), (1, 1));
    assert_eq!((s.active, s.selected), (Some(1), 1));
    assert_eq!(code(&s.handle_workspace_focus("f".into(), "w9")), "workspace_not_found");
    assert_eq!(code(&s.handle_workspace_get("f".into(), "w9")), "workspace_not_found");
}

#[test]
fn runtime_workspace_mutations_drive_pure_state_without_a_pty() {
    let mut s = session(vec![workspace("a", &[1]), workspace("b", &[2])]);
    s.active = Some(0);
    let focus = runtime_workspace_focus("tui.workspace.focus".into(), "b".into());
    let Method::WorkspaceFocus(target) = focus.method else { panic!("focus") };
    let response = s.handle_workspace_focus(focus.id, &target.workspace_id);
    assert_eq!(response.id, "tui.workspace.focus");
    assert_eq!(code(&response), "ok");
    assert_eq!(s.active, Some(1));
    let close = runtime_workspace_close("tui.workspace.close".into(), "b".into());
    let Method::WorkspaceClose(target) = close.method else { panic!("close") };
    let response = s.handle_workspace_close(close.id, &target.workspace_id);
    assert_eq!(code(&response), "ok");
    assert_eq!(s.workspaces.len(), 1);
    assert_eq!(s.workspaces[0].display_name(), "a");
    assert!(s.terminals.iter().all(|t| t.runtime.is_none()));
}

// --- snapshot and infos ----------------------------------------------------------------------

/// A layout for every tab, in order.
fn layouts(s: &Session) -> Vec<Option<TabLayout>> {
    s.workspaces
        .iter()
        .flat_map(|ws| ws.tabs.iter())
        .map(|tab| {
            let pane_id = |id: u64| {
                tab.panes.iter().find(|pane| pane.id == id).unwrap().public_id.clone()
            };
            Some(TabLayout {
                tab_id: tab.public_id.clone(),
                focused_pane_id: pane_id(tab.focused),
                panes: tab
                    .panes
                    .iter()
                    .map(|pane| PlacedPane {
                        pane_id: pane.public_id.clone(),
                        rect: Rect::new(0, 0, 120, 40),
                    })
                    .collect(),
            })
        })
        .collect()
}

fn build() -> BuildInputs {
    BuildInputs {
        base_version: "9.9.9".into(),
        channel: None,
        build_id: None,
        build_sha: None,
    }
}

#[test]
fn session_snapshot_empty_session_has_current_metadata_and_no_focus() {
    let s = session(vec![]);
    let snapshot = s.session_snapshot(&build(), 14, layouts(&s));
    assert_eq!(snapshot.version, version(&build()));
    assert_eq!(snapshot.protocol, 14);
    assert!(snapshot.workspaces.is_empty());
    assert!(snapshot.tabs.is_empty());
    assert!(snapshot.panes.is_empty());
    assert!(snapshot.layouts.is_empty());
    assert!(snapshot.agents.is_empty());
    assert!(snapshot.focused_workspace_id.is_none());
    assert!(snapshot.focused_tab_id.is_none());
    assert!(snapshot.focused_pane_id.is_none());
}

#[test]
fn session_snapshot_includes_inactive_tabs_and_current_focus() {
    let mut s = session(vec![workspace("first", &[1, 2]), workspace("second", &[3, 4])]);
    s.active = Some(1);
    s.workspaces[1].active_tab = 1;
    let snapshot = s.session_snapshot(&build(), 14, layouts(&s));
    assert_eq!(snapshot.workspaces.len(), 2);
    assert_eq!(snapshot.tabs.len(), 4);
    assert_eq!(snapshot.panes.len(), 4);
    assert_eq!(snapshot.layouts.len(), 4);
    for (layout, tab) in snapshot.layouts.iter().zip(&snapshot.tabs) {
        assert_eq!(layout.tab_id, tab.tab_id);
        let (ws, pane) = s.parse_pane_id(&layout.focused_pane_id).unwrap();
        assert_eq!(s.pane_info(ws, pane).unwrap().tab_id, layout.tab_id);
    }
    assert_eq!(snapshot.focused_workspace_id.as_deref(), Some("second"));
    assert_eq!(snapshot.focused_tab_id.as_deref(), Some("second:t4"));
    assert_eq!(snapshot.focused_pane_id.as_deref(), Some("second-4"));
    let panes = s.collect_panes_for_workspace(&None).unwrap();
    assert_eq!(
        panes.iter().map(|pane| pane.pane_id.as_str()).collect::<Vec<_>>(),
        ["first-1", "first-2", "second-3", "second-4"]
    );
    assert_eq!(format!("{:?}", snapshot.panes), format!("{panes:?}"));
    for (told, pane) in snapshot.panes.iter().zip(&panes) {
        assert_eq!(told.pane_id, pane.pane_id);
        assert_eq!(told.focused, pane.pane_id == "second-4");
    }
    for (ws_idx, info) in snapshot.workspaces.iter().enumerate() {
        assert_eq!(format!("{info:?}"), format!("{:?}", s.workspace_info(ws_idx)));
        for tab_idx in 0..2 {
            let tab = &snapshot.tabs[ws_idx * 2 + tab_idx];
            assert_eq!(
                format!("{tab:?}"),
                format!("{:?}", s.tab_info(ws_idx, tab_idx).unwrap())
            );
            assert_eq!(tab.focused, ws_idx == 1 && tab_idx == 1);
        }
    }
    let own = s.collect_panes_for_workspace(&Some("first".into())).unwrap();
    assert_eq!(own.len(), 2);
    let missing = s.collect_panes_for_workspace(&Some("third".into())).unwrap_err();
    assert_eq!(
        (missing.code, missing.message.as_str()),
        ("workspace_not_found", "workspace third not found")
    );
}

#[test]
fn session_snapshot_missing_active_owner_does_not_invent_focus() {
    let mut s = session(vec![workspace("unfocused", &[1])]);
    for active in [None, Some(usize::MAX)] {
        s.active = active;
        let snapshot = s.session_snapshot(&build(), 14, layouts(&s));
        assert_eq!(snapshot.workspaces.len(), 1);
        assert!(snapshot.focused_workspace_id.is_none());
        assert!(snapshot.focused_tab_id.is_none());
        assert!(snapshot.focused_pane_id.is_none());
        assert!(snapshot.workspaces.iter().all(|ws| !ws.focused));
        assert!(snapshot.tabs.iter().all(|tab| !tab.focused));
        assert!(snapshot.panes.iter().all(|pane| !pane.focused));
    }
}

#[test]
fn session_snapshot_preserves_identity_runtime_and_event_state() {
    let mut s = session(vec![workspace("observed", &[1])]);
    s.active = Some(0);
    let label = format!("{:?}", Agent::Claude).to_lowercase();
    let t = term(&mut s, "term_1");
    t.detected_agent = Some(Agent::Claude);
    t.known_agent = Some(Agent::Claude);
    t.agent_label = Some(label.clone());
    t.state = AgentState::Idle;
    t.runtime = Some(runtime());
    let before = format!("{s:?}");
    let agents = format!("{:?}", s.collect_agent_infos());
    let snapshot = s.session_snapshot(&build(), 14, layouts(&s));
    assert_eq!(format!("{:?}", snapshot.agents), agents);
    assert_eq!(snapshot.agents.len(), 1);
    assert_eq!(snapshot.agents[0].pane.agent, Some(label));
    assert!(snapshot.agents[0].pane.agent_session.is_none());
    assert!(snapshot.panes[0].agent_session.is_none());
    assert_eq!(format!("{s:?}"), before, "identity, focus, runtime and events stay");
    assert_eq!(s.workspaces[0].focused_pane_id(), Some(1));
    assert!(!s.save_scheduled);
    assert!(s.events.is_empty());
    let again = s.session_snapshot(&build(), 14, layouts(&s));
    assert_eq!(format!("{again:?}"), format!("{snapshot:?}"));
}

#[test]
fn a_snapshot_has_the_layouts_that_are_there_in_order() {
    let s = session(vec![workspace("a", &[1, 2]), workspace("b", &[3])]);
    let mut given = layouts(&s);
    given[1] = None;
    let snapshot = s.session_snapshot(&build(), 14, given);
    let tabs: Vec<&str> = snapshot.layouts.iter().map(|layout| layout.tab_id.as_str()).collect();
    assert_eq!(tabs, ["a:t1", "b:t3"]);
    assert_eq!(snapshot.tabs.len(), 3);
}

#[test]
fn a_missing_active_tab_is_told_by_its_number() {
    let mut s = session(vec![workspace("w", &[7])]);
    assert_eq!(s.workspace_info(0).active_tab_id, "w:t7");
    s.workspaces[0].active_tab = 4;
    assert_eq!(s.workspace_info(0).active_tab_id, "w:t5");
}

#[test]
fn pane_infos_carry_what_the_terminal_knows() {
    let mut s = session(vec![workspace("w", &[1])]);
    let t = term(&mut s, "term_1");
    t.cwd = Some("/cached".into());
    t.manual_label = Some("label".into());
    t.agent_label = Some("pi".into());
    t.state = AgentState::Blocked;
    t.persisted_session = Some(PersistedSession {
        source: "zynk:pi".into(),
        agent: "pi".into(),
        session_ref: SessionRef { kind: SessionRefKind::Id, value: "old".into() },
    });
    let info = s.pane_info(0, 1).unwrap();
    assert_eq!(info.cwd.as_deref(), Some("/cached"));
    assert_eq!(info.foreground_cwd, None);
    assert_eq!(info.label.as_deref(), Some("label"));
    assert_eq!(info.agent_status, AgentStatus::Blocked);
    assert_eq!(info.agent_session.as_ref().unwrap().value, "old");
    let t = term(&mut s, "term_1");
    t.hook_authority = Some(HookAuthority {
        source: "zynk:pi".into(),
        agent_label: "pi".into(),
        session_ref: Some(SessionRef { kind: SessionRefKind::Path, value: "/now".into() }),
    });
    t.runtime = Some(Runtime {
        cwd: Some("/shell".into()),
        foreground_cwd: Some("/leader".into()),
        scroll: Some(ScrollMetrics {
            offset_from_bottom: 1,
            max_offset_from_bottom: 2,
            viewport_rows: 3,
        }),
        ..runtime()
    });
    let info = s.pane_info(0, 1).unwrap();
    assert_eq!(info.cwd.as_deref(), Some("/shell"));
    assert_eq!(info.foreground_cwd.as_deref(), Some("/leader"));
    assert_eq!(info.agent_session.as_ref().unwrap().kind, SessionRefKind::Path);
    assert_eq!(info.scroll.unwrap().viewport_rows, 3);
    assert_eq!(s.focused_pane_cwd_in_workspace(0).as_deref(), Some("/leader"));
    assert!(s.pane_info(0, 2).is_none());
    assert!(s.pane_info(1, 1).is_none());
    assert_eq!(pane_agent_status(AgentState::Idle, false), AgentStatus::Done);
    assert_eq!(pane_agent_status(AgentState::Idle, true), AgentStatus::Idle);
}

#[test]
fn the_most_urgent_status_is_shown_for_a_tab() {
    let mut s = session(vec![workspace("w", &[1])]);
    s.workspaces[0].tabs[0].panes.push(pane("w", 2));
    s.terminals.push(terminal("term_2"));
    for (one, two, expected) in [
        (AgentState::Idle, AgentState::Working, AgentStatus::Working),
        (AgentState::Blocked, AgentState::Working, AgentStatus::Blocked),
        (AgentState::Unknown, AgentState::Idle, AgentStatus::Idle),
    ] {
        term(&mut s, "term_1").state = one;
        term(&mut s, "term_2").state = two;
        assert_eq!(s.tab_info(0, 0).unwrap().agent_status, expected);
        assert_eq!(s.workspace_info(0).agent_status, expected);
    }
    term(&mut s, "term_1").state = AgentState::Working;
    s.workspaces[0].tabs[0].panes[1].seen = false;
    assert_eq!(s.tab_info(0, 0).unwrap().agent_status, AgentStatus::Done);
}

// --- agents ----------------------------------------------------------------------------------

fn session_with_agent() -> Session {
    let mut s = session(vec![workspace("w1", &[1])]);
    s.active = Some(0);
    s.mode = Mode::Terminal;
    let t = term(&mut s, "term_1");
    t.agent_label = Some("pi".into());
    t.known_agent = Some(Agent::Pi);
    t.state = AgentState::Idle;
    s.workspaces[0].tabs[0].panes[0].seen = false;
    s
}

#[test]
fn agent_focus_marks_already_focused_done_agent_seen() {
    let mut s = session_with_agent();
    let before = s.handle_agent_get("g".into(), "pi", at(&s, "w1-1")).body.unwrap();
    assert_eq!(before.pane.agent_status, AgentStatus::Done);
    assert_eq!(s.workspaces[0].focused_pane_id(), Some(1));
    let target = at(&s, "w1-1");
    let response = s.handle_agent_focus("req".into(), "pi", target);
    assert_eq!(response.id, "req");
    let agent = response.body.unwrap();
    assert_eq!(agent.pane.pane_id, "w1-1");
    assert_eq!(agent.pane.agent_status, AgentStatus::Idle);
    assert!(s.workspaces[0].tabs[0].panes[0].seen);
    assert_eq!(s.terminals[0].state, AgentState::Idle);
    assert_eq!(s.active, Some(0));
    assert_eq!(s.workspaces[0].focused_pane_id(), Some(1));
    assert!(s.events.is_empty());
}

fn assert_background_focus_marks_only_target_tab(agent_focus: bool) {
    let mut s = session_with_agent();
    let mut target = workspace("w2", &[2, 4]);
    target.tabs[0].panes.push(pane("w2", 3));
    target.tabs[0].focused = 3;
    s.workspaces.push(target);
    for id in ["term_2", "term_3", "term_4"] {
        s.terminals.push(terminal(id));
    }
    let t = term(&mut s, "term_2");
    t.agent_label = Some("pi".into());
    t.state = AgentState::Idle;
    for ws in &mut s.workspaces {
        for tab in &mut ws.tabs {
            for pane in &mut tab.panes {
                pane.seen = false;
            }
        }
    }
    let status = if agent_focus {
        let target = at(&s, "w2-2");
        let response = s.handle_agent_focus("background-focus".into(), "w2-2", target);
        let agent = response.body.unwrap();
        assert_eq!(agent.pane.pane_id, "w2-2");
        agent.pane.agent_status
    } else {
        assert!(s.focus_pane_in_workspace(1, 2));
        s.pane_info(1, 2).unwrap().agent_status
    };
    assert_eq!(status, AgentStatus::Idle);
    assert!(!s.workspaces[0].tabs[0].panes[0].seen, "prior workspace must remain unseen");
    assert_eq!(s.active, Some(1));
    assert_eq!(s.selected, 1);
    assert_eq!(s.workspaces[1].focused_pane_id(), Some(2));
    assert!(s.workspaces[1].tabs[0].panes.iter().all(|pane| pane.seen));
    assert!(s.workspaces[1].tabs[1].panes.iter().all(|pane| !pane.seen));
    assert_eq!(s.mode, Mode::Terminal);
    assert!(s.events.is_empty());
}

#[test]
fn m823_agent_focus_marks_target_tab_without_marking_prior_workspace() {
    assert_background_focus_marks_only_target_tab(true);
}

#[test]
fn m823_pane_focus_marks_target_tab_without_marking_prior_workspace() {
    assert_background_focus_marks_only_target_tab(false);
}

#[test]
fn m823_invalid_focus_target_preserves_attention_and_focus() {
    let mut s = session_with_agent();
    let missing = Err(ApiError {
        code: "agent_not_found",
        message: "agent target missing-focus-target not found".into(),
    });
    let response = s.handle_agent_focus("invalid-focus".into(), "missing-focus-target", missing);
    assert_eq!(response.id, "invalid-focus");
    assert_eq!(code(&response), "agent_not_found");
    assert!(!s.focus_pane_in_workspace(0, 99));
    assert!(!s.focus_pane_in_workspace(7, 1));
    assert_eq!(s.active, Some(0));
    assert_eq!(s.selected, 0);
    assert_eq!(s.workspaces[0].focused_pane_id(), Some(1));
    assert!(!s.workspaces[0].tabs[0].panes[0].seen);
    assert!(s.events.is_empty());
}

fn promptable() -> Session {
    let mut s = session(vec![workspace("w1", &[1])]);
    let t = term(&mut s, "term_1");
    t.agent_name = Some("worker".into());
    t.agent_label = Some("codex".into());
    t.known_agent = Some(Agent::Codex);
    t.state = AgentState::Idle;
    t.state_change_seq = Some(4);
    t.runtime = Some(Runtime {
        job: Some(ForegroundJob {
            identified: None,
            hints: vec![None, Some(Agent::Codex), Some(Agent::Pi)],
        }),
        ..runtime()
    });
    s
}

fn prompt(text: &str, expected: Option<&str>) -> PromptParams {
    PromptParams {
        target: "worker".into(),
        text: text.into(),
        expected_terminal_id: expected.map(str::to_string),
    }
}

#[test]
fn prompts_are_gated_step_by_step() {
    let s = promptable();
    assert_eq!(
        s.begin_agent_prompt(&prompt("", None), at(&s, "w1-1")).unwrap_err().code,
        "empty_agent_prompt"
    );
    let changed = s.begin_agent_prompt(&prompt("x", Some("term_old")), at(&s, "w1-1")).unwrap_err();
    assert_eq!(
        (changed.code, changed.message.as_str()),
        ("agent_target_changed", "agent target no longer has the expected terminal_id")
    );
    let here = s.begin_agent_prompt(&prompt("x", Some("term_1")), at(&s, "w1-1")).unwrap();
    let plan = s.plan_agent_prompt(&prompt("x", None), &here).unwrap();
    assert_eq!((plan.agent, plan.baseline_state_change_seq), (Agent::Codex, 4));
    let done = s.finish_agent_prompt("p".into(), &prompt("x", None), &here, plan, Ok(()));
    let prompted = done.body.unwrap();
    assert_eq!(prompted.baseline_state_change_seq, 4);
    assert_eq!(prompted.agent.name.as_deref(), Some("worker"));
    let failed =
        s.finish_agent_prompt("p".into(), &prompt("x", None), &here, plan, Err("full".into()));
    assert_eq!((code(&failed), message(&failed)), ("agent_prompt_failed", "full"));

    let refused = |change: fn(&mut Terminal)| {
        let mut s = promptable();
        change(term(&mut s, "term_1"));
        let e = s.plan_agent_prompt(&prompt("x", None), &at(&s, "w1-1").unwrap()).unwrap_err();
        (e.code, e.message)
    };
    let unready = ("agent_not_ready", "agent worker is not an active named agent".to_string());
    assert_eq!(refused(|t| t.known_agent = None), unready);
    assert_eq!(refused(|t| t.state = AgentState::Unknown), unready);
    assert_eq!(refused(|t| t.agent_name = Some("other".into())), unready);
    assert_eq!(
        refused(|t| t.managed = Some(ManagedAgent { launch_pending: true, interactive_ready: true })),
        unready
    );
    assert_eq!(
        refused(|t| t.managed = Some(ManagedAgent { launch_pending: false, interactive_ready: false })),
        unready
    );
    assert_eq!(
        refused(|t| t.state = AgentState::Working),
        (
            "agent_working",
            "agent worker is still working; wait before prompting".to_string()
        )
    );
    assert_eq!(
        refused(|t| t.state = AgentState::Blocked),
        (
            "agent_blocked",
            "agent worker is blocked and needs user input before it can accept a prompt".to_string()
        )
    );
    assert_eq!(
        refused(|t| t.runtime = None),
        ("agent_not_found", "agent target worker not found".to_string())
    );
    let gone = (
        "agent_not_ready",
        "agent worker is no longer the pane foreground process or has a pending exit".to_string(),
    );
    assert_eq!(refused(|t| t.runtime.as_mut().unwrap().exit_pending = true), gone);
    assert_eq!(refused(|t| t.runtime.as_mut().unwrap().job = None), gone);
    let mut unnamed = promptable();
    term(&mut unnamed, "term_1").agent_name = None;
    assert_eq!(
        unnamed.begin_agent_prompt(&prompt("x", None), at(&unnamed, "w1-1")).unwrap_err().code,
        "agent_not_ready"
    );
}

#[test]
fn reconciling_an_agent_tells_listeners_and_saves() {
    let mut s = promptable();
    let here = at(&s, "w1-1").unwrap();
    s.agent_reconciled(&here, false);
    assert!(s.events.is_empty() && !s.save_scheduled);
    s.agent_reconciled(&here, true);
    assert!(s.save_scheduled);
    assert!(matches!(&s.events[0], Event::PaneUpdated { pane } if pane.pane_id == "w1-1"));
}

#[test]
fn one_agent_is_told_it_has_the_focus_first() {
    assert_eq!(
        prompt_bytes(Agent::GithubCopilot, Ok(b"\x1b[I".to_vec()), b"hi".to_vec()).unwrap(),
        b"\x1b[Ihi"
    );
    assert_eq!(prompt_bytes(Agent::Codex, Err("no".into()), b"hi".to_vec()).unwrap(), b"hi");
    let failed = prompt_bytes(Agent::GithubCopilot, Err("no".into()), b"hi".to_vec()).unwrap_err();
    assert_eq!((failed.code, failed.message.as_str()), ("agent_prompt_failed", "no"));
}

#[test]
fn the_job_or_its_processes_say_which_agent_is_in_front() {
    let job = |identified, hints: &[Option<Agent>]| {
        Some(ForegroundJob { identified, hints: hints.to_vec() })
    };
    assert!(runtime_hosts_agent(&job(Some(Agent::Pi), &[Some(Agent::Codex)]), Agent::Pi));
    assert!(!runtime_hosts_agent(&job(Some(Agent::Pi), &[Some(Agent::Codex)]), Agent::Codex));
    assert!(runtime_hosts_agent(&job(None, &[None, Some(Agent::Codex)]), Agent::Codex));
    assert!(!runtime_hosts_agent(&job(None, &[Some(Agent::Pi), Some(Agent::Codex)]), Agent::Codex));
    assert!(!runtime_hosts_agent(&job(None, &[]), Agent::Codex));
    assert!(!runtime_hosts_agent(&None, Agent::Codex));
}

#[test]
fn reads_default_and_cap_their_lines() {
    let s = promptable();
    let params = |source, format, lines| ReadParams { target: "worker".into(), source, format, lines };
    let view = |source, format, lines| {
        s.plan_agent_read(&params(source, format, lines), at(&s, "w1-1")).unwrap().1
    };
    assert_eq!(
        view(ReadSource::Recent, ReadFormat::Text, None),
        TextView::Recent { ansi: false, lines: 80 }
    );
    assert_eq!(
        view(ReadSource::RecentUnwrapped, ReadFormat::Ansi, Some(5000)),
        TextView::RecentUnwrapped { ansi: true, lines: 1000 }
    );
    assert_eq!(view(ReadSource::Visible, ReadFormat::Ansi, None), TextView::Visible { ansi: true });
    assert_eq!(view(ReadSource::Detection, ReadFormat::Ansi, None), TextView::Detection);
    let asked = params(ReadSource::Visible, ReadFormat::Text, None);
    let here = at(&s, "w1-1").unwrap();
    let read = s.finish_agent_read("r".into(), &asked, &here, "screen".into()).body.unwrap();
    assert_eq!(
        (read.pane_id.as_str(), read.workspace_id.as_str(), read.tab_id.as_str()),
        ("w1-1", "w1", "w1:t1")
    );
    assert_eq!((read.text.as_str(), read.revision, read.truncated), ("screen", 0, false));
    let mut quiet = promptable();
    term(&mut quiet, "term_1").runtime = None;
    assert_eq!(
        quiet.plan_agent_read(&asked, at(&quiet, "w1-1")).unwrap_err().code,
        "agent_not_found"
    );
    assert_eq!(
        quiet.plan_agent_send("worker", at(&quiet, "w1-1")).unwrap_err().message,
        "agent target worker not found"
    );
    assert!(s.plan_agent_send("worker", at(&s, "w1-1")).is_ok());
}

#[test]
fn explanations_skip_the_screen_for_full_hooks() {
    let mut s = promptable();
    assert!(matches!(
        s.plan_agent_explain("worker", at(&s, "w1-1")),
        Ok(Explain::Evaluate { agent: Agent::Codex })
    ));
    term(&mut s, "term_1").known_agent = None;
    term(&mut s, "term_1").detected_agent = Some(Agent::Claude);
    assert!(matches!(
        s.plan_agent_explain("worker", at(&s, "w1-1")),
        Ok(Explain::Evaluate { agent: Agent::Claude })
    ));
    term(&mut s, "term_1").detected_agent = None;
    let none = s.plan_agent_explain("worker", at(&s, "w1-1")).unwrap_err();
    assert_eq!(
        (none.code, none.message.as_str()),
        (
            "agent_explain_unavailable",
            "agent target worker does not have a detected agent label"
        )
    );
    term(&mut s, "term_1").full_lifecycle_hook = true;
    match s.plan_agent_explain("worker", at(&s, "w1-1")).unwrap() {
        Explain::SkippedForHook { label, state } => {
            assert_eq!((label.as_str(), state), ("codex", AgentState::Idle));
            assert_eq!(agent_state_label(state), "idle");
        }
        other => panic!("unexpected {other:?}"),
    }
}

#[test]
fn keys_go_out_together_or_not_at_all() {
    let s = promptable();
    assert!(s.plan_agent_send_keys("worker", at(&s, "w1-1")).is_ok());
    let mut idle = promptable();
    term(&mut idle, "term_1").runtime.as_mut().unwrap().job = None;
    assert_eq!(
        idle.plan_agent_send_keys("worker", at(&idle, "w1-1")).unwrap_err().code,
        "agent_not_ready"
    );
    term(&mut idle, "term_1").runtime = None;
    assert_eq!(
        idle.plan_agent_send_keys("worker", at(&idle, "w1-1")).unwrap_err().code,
        "agent_not_found"
    );
    assert_eq!(key_bytes(Ok(vec![vec![1, 2], vec![], vec![3]])).unwrap(), vec![1, 2, 3]);
    let bad = key_bytes(Err("Hyper".into())).unwrap_err();
    assert_eq!((bad.code, bad.message.as_str()), ("invalid_key", "unsupported key Hyper"));
    assert_eq!(code(&sent_reply("s".into(), "agent_send_failed", Ok(()))), "ok");
    let failed = sent_reply("s".into(), "agent_send_failed", Err("closed".into()));
    assert_eq!((code(&failed), message(&failed)), ("agent_send_failed", "closed"));
}

#[test]
fn agents_are_listed_in_order() {
    let mut s = session(vec![workspace("a", &[1, 2]), workspace("b", &[3])]);
    term(&mut s, "term_1").agent_label = Some("pi".into());
    term(&mut s, "term_3").agent_name = Some("worker".into());
    let agents = s.handle_agent_list("l".into()).body.unwrap();
    assert_eq!(
        agents.iter().map(|agent| agent.pane.pane_id.as_str()).collect::<Vec<_>>(),
        ["a-1", "b-3"]
    );
    let none = s.handle_agent_get("g".into(), "x", at(&s, "a-2"));
    assert_eq!(message(&none), "agent target x not found");
}

// --- agent view ------------------------------------------------------------------------------

fn working_view(source: &str) -> AgentView {
    AgentView {
        source: source.into(),
        label: Some("working".into()),
        selection: "status = working".into(),
    }
}

#[test]
fn m844_set_and_source_guarded_clear_reset_projection_scrolls() {
    let mut view =
        AgentViewState { current: None, agent_panel_scroll: 7, mobile_switcher_scroll: 9 };
    let reply = view
        .handle_agent_view_set("set".into(), Ok(working_view("manual.view")), &None, &vec![])
        .body
        .unwrap();
    assert!(reply.active);
    assert_eq!(reply.source.as_deref(), Some("manual.view"));
    assert_eq!(reply.label.as_deref(), Some("working"));
    assert_eq!((view.agent_panel_scroll, view.mobile_switcher_scroll), (0, 0));
    view.agent_panel_scroll = 3;
    let kept = view.handle_agent_view_clear("wrong".into(), Some(Ok("other.view".into())));
    assert!(kept.body.unwrap().active);
    assert!(view.current.is_some());
    assert_eq!(view.agent_panel_scroll, 3);
    let cleared = view.handle_agent_view_clear("right".into(), Some(Ok("manual.view".into())));
    assert!(!cleared.body.unwrap().active);
    assert!(view.current.is_none());
    assert_eq!(view.agent_panel_scroll, 0);
}

#[test]
fn m844_detection_labeled_view_never_mints_receipt_authority() {
    let mut s = session(vec![workspace("observed", &[1])]);
    s.active = Some(0);
    let t = term(&mut s, "term_1");
    t.detected_agent = Some(Agent::Codex);
    t.agent_label = Some("codex".into());
    t.state = AgentState::Working;
    let mut view =
        AgentViewState { current: None, agent_panel_scroll: 0, mobile_switcher_scroll: 0 };
    view.handle_agent_view_set("set".into(), Ok(working_view("manual.view")), &None, &vec![]);
    assert_eq!(s.collect_agent_infos().len(), 1);
    assert!(s.authoritative_receiver_identity("observed-1").is_none());
}

#[test]
fn plugin_views_need_an_installed_enabled_plugin() {
    let mut view =
        AgentViewState { current: None, agent_panel_scroll: 5, mobile_switcher_scroll: 5 };
    let plugins = vec![
        Plugin { id: "on".into(), enabled: true },
        Plugin { id: "off".into(), enabled: false },
    ];
    assert_eq!(plugin_source("plugin:on"), Some("on"));
    assert_eq!(plugin_source("plugin"), None);
    assert_eq!(plugin_source("plugin:"), Some(""));
    for (source, id, expected) in [
        ("plugin:?", None, "invalid_agent_view"),
        ("plugin:gone", Some("gone"), "plugin_not_found"),
        ("plugin:off", Some("off"), "plugin_disabled"),
    ] {
        let response = view.handle_agent_view_set(
            "set".into(),
            Ok(working_view(source)),
            &id.map(str::to_string),
            &plugins,
        );
        assert_eq!(code(&response), expected);
        assert!(view.current.is_none());
        assert_eq!(view.agent_panel_scroll, 5);
    }
    let bad = view.handle_agent_view_set("set".into(), Err("no rows".into()), &None, &plugins);
    assert_eq!((code(&bad), message(&bad)), ("invalid_agent_view", "no rows"));
    let set = view.handle_agent_view_set(
        "set".into(),
        Ok(working_view("plugin:on")),
        &Some("on".into()),
        &plugins,
    );
    assert_eq!(code(&set), "ok");
    assert!(!view.clear_agent_view_for_source("plugin:off"));
    assert!(view.clear_agent_view_for_source("plugin:on"));
    assert!(view.current.is_none());
    let bad = view.handle_agent_view_clear("c".into(), Some(Err("bad source".into())));
    assert_eq!((code(&bad), message(&bad)), ("invalid_agent_view", "bad source"));
    assert!(!view.handle_agent_view_clear("c".into(), None).body.unwrap().active);
}

// --- receipts and callers --------------------------------------------------------------------

fn received(pane_id: &str, seq: Option<i64>) -> ZynkMessageReceivedParams {
    ZynkMessageReceivedParams {
        pane_id: pane_id.into(),
        message_id: "msg".into(),
        conversation_id: "conv".into(),
        conversation_seq: 1,
        runtime_session_id: "rt".into(),
        socket_namespace: "sock".into(),
        receiver_seq: seq,
        timestamp: None,
        status: None,
        receiver_agent_session: None,
    }
}

#[test]
fn receipts_need_a_confirmed_hook_identity() {
    let mut s = session(vec![workspace("w1", &[1])]);
    let refused = |s: &Session, seq, recorder| {
        plan_zynk_message_received(s, received("w1-1", seq), recorder).unwrap_err().code
    };
    assert_eq!(refused(&s, Some(0), true), "invalid_params");
    assert_eq!(refused(&s, None, true), "receiver_identity_unverified");
    let t = term(&mut s, "term_1");
    t.confirmed_hook_label = Some("pi".into());
    t.persisted_session = Some(PersistedSession {
        source: "zynk:codex".into(),
        agent: "codex".into(),
        session_ref: SessionRef { kind: SessionRefKind::Id, value: "other".into() },
    });
    assert_eq!(refused(&s, Some(1), false), "receipt_worker_unavailable");
    let (request, receiver) =
        plan_zynk_message_received(&s, received("w1-1", Some(1)), true).unwrap();
    assert_eq!((request.message_id.as_str(), request.receiver_seq), ("msg", Some(1)));
    assert_eq!(receiver.agent_label, "pi");
    assert!(receiver.agent_session.is_none(), "another agent's session anchors nothing");
    term(&mut s, "term_1").persisted_session.as_mut().unwrap().agent = "pi".into();
    let receiver = s.authoritative_receiver_identity("w1-1").unwrap();
    assert_eq!(receiver.agent_session.unwrap().value, "other");
    term(&mut s, "term_1").runtime = Some(Runtime { exit_pending: true, ..runtime() });
    assert_eq!(refused(&s, None, true), "receiver_identity_unverified");
}

#[test]
fn recorded_receipts_are_answered() {
    let reply = finish_zynk_message_received(
        "r".into(),
        Ok(AcceptedReceipt {
            message_id: "msg".into(),
            conversation_id: "conv".into(),
            conversation_seq: 3,
            status: "accepted".into(),
            receiver_pane_id: "w1-1".into(),
            receiver_agent_label: "pi".into(),
        }),
    )
    .body
    .unwrap();
    assert_eq!(reply.receipt_status, "accepted");
    assert_eq!(reply.delivery_status, "received");
    assert_eq!(reply.next, "receipt recorded; processed is deferred");
    let refused = finish_zynk_message_received(
        "r".into(),
        Err(ApiError { code: "stale_runtime", message: "old".into() }),
    );
    assert_eq!((code(&refused), message(&refused)), ("stale_runtime", "old"));
}

#[test]
fn callers_are_held_to_the_panes_own_process() {
    let mut s = session(vec![workspace("w1", &[1])]);
    term(&mut s, "term_1").runtime = Some(Runtime { child: Some((100, Some(10))), ..runtime() });
    let rows = [
        ProcessEntry { pid: 200, parent: 100, start_time: 20 },
        ProcessEntry { pid: 100, parent: 10, start_time: 10 },
    ];
    let caller = |pid, start| ApiCaller {
        peer: Some(PeerCredentials { pid, uid: 1000, start_time: Some(start) }),
        trusted_as_pane_child: false,
    };
    let unknown = ApiCaller { peer: None, trusted_as_pane_child: false };
    let check = |s: &Session, pane_id, caller| {
        let release = caller_is_inside_pane(s, pane_id, caller, Build::Release, 1000, &rows);
        let debug = caller_is_inside_pane(s, pane_id, caller, Build::Debug, 1000, &rows);
        assert_eq!(release, debug);
        release
    };
    assert_eq!(check(&s, "w1-1", caller(200, 20)), Ok(()));
    assert_eq!(
        check(&s, "w1-1", caller(200, 21)),
        Err(CallerRejection::CallerReplaced { peer_pid: 200 })
    );
    assert_eq!(check(&s, "w1-1", unknown), Err(CallerRejection::UnknownPeer));
    assert_eq!(check(&s, "nowhere", unknown), Ok(()));
    term(&mut s, "term_1").runtime = None;
    assert_eq!(
        check(&s, "w1-1", caller(200, 20)),
        Err(CallerRejection::PaneHasNoProcess { peer_pid: 200 })
    );
}

#[test]
fn only_a_debug_build_can_be_told_to_trust_its_callers() {
    let s = session(vec![workspace("w1", &[1])]);
    let trusted = ApiCaller { peer: None, trusted_as_pane_child: true };
    assert_eq!(caller_is_inside_pane(&s, "w1-1", trusted, Build::Debug, 1000, &[]), Ok(()));
    assert_eq!(
        caller_is_inside_pane(&s, "w1-1", trusted, Build::Release, 1000, &[]),
        Err(CallerRejection::UnknownPeer)
    );
}

// --- titles ----------------------------------------------------------------------------------

#[test]
fn renders_workspace_tab_and_focused_pane_values() {
    let mut s = session(vec![workspace("workspace", &[1])]);
    s.active = Some(0);
    term(&mut s, "term_1").manual_label = Some("shell".into());
    let slash = || TitlePart::Literal("/".into());
    let configured = configure_window_title(
        Some(vec![TitlePart::Workspace, slash(), TitlePart::Tab, slash(), TitlePart::Pane]),
        Some("unused".into()),
    );
    assert_eq!(s.window_title(&configured).as_deref(), Some("workspace/1/shell"));
    assert_eq!(configured.as_ref().unwrap().hostname, "");
    assert!(window_title_configured(&configured));
    assert!(!window_title_uses_terminal_title(&configured));
    s.active = None;
    assert_eq!(s.window_title(&configured).as_deref(), Some("//"));
    assert_eq!(s.window_title(&configure_window_title(None, None)), None);
    let hosted = configure_window_title(
        Some(vec![TitlePart::Hostname, TitlePart::TerminalTitle]),
        Some("box ".into()),
    );
    assert!(uses_hostname(&hosted.as_ref().unwrap().parts));
    assert!(window_title_uses_terminal_title(&hosted));
    s.active = Some(0);
    term(&mut s, "term_1").stripped_title = Some("compiling".into());
    assert_eq!(s.window_title(&hosted).as_deref(), Some("box compiling"));
}

#[test]
fn m828d2_title_demand_includes_global_and_override_only_builtins() {
    for (rows, by_agent, expected) in [
        (vec![], vec![], false),
        (vec![vec![AgentToken::Agent], vec![AgentToken::Pane]], vec![], false),
        (vec![vec![AgentToken::TerminalTitle]], vec![], true),
        (vec![vec![AgentToken::TerminalTitleStripped]], vec![], true),
        (
            vec![vec![AgentToken::TerminalTitle, AgentToken::TerminalTitle], vec![AgentToken::TerminalTitleStripped]],
            vec![],
            true,
        ),
        (vec![vec![AgentToken::Agent]], vec![vec![vec![AgentToken::TerminalTitle]]], true),
        (vec![vec![AgentToken::Agent]], vec![vec![vec![AgentToken::TerminalTitleStripped]]], true),
        (vec![], vec![vec![], vec![]], false),
        (vec![vec![AgentToken::Custom, AgentToken::Custom]], vec![], false),
        (vec![], vec![vec![vec![AgentToken::Custom]], vec![vec![AgentToken::Custom]]], false),
    ] {
        let config = AgentRows { rows, rows_by_agent: by_agent };
        assert_eq!(terminal_title_sidebar_configured(&config), expected, "{config:?}");
    }
    let raw_only = AgentRows { rows: vec![vec![AgentToken::TerminalTitle]], rows_by_agent: vec![] };
    let marks = TitleChanges { raw_changed: true, stripped_changed: false };
    assert!(terminal_title_sidebar_changed(&raw_only, &marks));
    let stripped_only =
        AgentRows { rows: vec![], rows_by_agent: vec![vec![vec![AgentToken::TerminalTitleStripped]]] };
    assert!(!terminal_title_sidebar_changed(&stripped_only, &marks));
}

#[test]
fn titles_are_taken_over_once_and_published_without_progress_marks() {
    let mut s = session(vec![workspace("w", &[1, 2])]);
    let mut titled = |raw: &str, stripped: &str| {
        term(&mut s, "term_1").runtime = Some(Runtime {
            title: Some(raw.into()),
            title_stripped: Some(stripped.into()),
            ..runtime()
        });
        let seen = s.events.len();
        let changes = s.sync_terminal_title_sources(&vec![1, 2]);
        let info = s.pane_info(0, 1).unwrap();
        (changes.raw_changed, changes.stripped_changed, info.revision, s.events.len() - seen)
    };
    assert_eq!(titled("\u{280b} alpha", "alpha"), (true, true, 1, 1));
    assert_eq!(titled("\u{280b} alpha", "alpha"), (false, false, 1, 0));
    assert_eq!(titled("\u{2819} alpha", "alpha"), (true, false, 1, 0));
    assert_eq!(titled("\u{2819} beta", "beta"), (true, true, 2, 1));
    let info = s.pane_info(0, 1).unwrap();
    assert_eq!(info.terminal_title.as_deref(), Some("\u{2819} beta"));
    assert_eq!(info.terminal_title_stripped.as_deref(), Some("beta"));
    let changes = s.sync_terminal_title_sources(&vec![2]);
    assert!(!changes.raw_changed && !changes.stripped_changed);
}

// --- creation --------------------------------------------------------------------------------

#[test]
fn new_terminals_start_where_the_policy_says() {
    let dir = |path: &str, is_dir| Some(Candidate { path: path.into(), is_dir });
    let resolve = |policy: &CwdPolicy, follow: Option<Candidate>, home: Option<Candidate>, current: Option<Candidate>| {
        resolve_new_terminal_cwd(policy, &follow, &home, &current)
    };
    let follow = CwdPolicy::Follow;
    assert_eq!(resolve(&follow, dir("/a", true), dir("/h", true), None), "/a");
    assert_eq!(resolve(&follow, dir("/a", false), dir("/h", true), None), "/h");
    assert_eq!(resolve(&follow, dir("a", true), dir("h", true), dir("/c", true)), "/c");
    assert_eq!(resolve(&follow, None, None, None), "/");
    assert_eq!(resolve(&CwdPolicy::Home, dir("/a", true), dir("h", false), None), "h");
    assert_eq!(resolve(&CwdPolicy::Home, None, None, dir("/c", false)), "/c");
    assert_eq!(resolve(&CwdPolicy::Current, None, dir("/h", true), None), "/");
    assert_eq!(resolve(&CwdPolicy::Path("/p".into()), None, None, None), "/p");
}

#[test]
fn a_new_workspace_is_asked_for_from_the_right_source() {
    let mut s = session(vec![workspace("a", &[1]), workspace("b", &[2])]);
    s.active = Some(0);
    s.selected = 1;
    s.mode = Mode::Navigate;
    assert_eq!(s.workspace_creation_source(), Some(1));
    s.mode = Mode::Terminal;
    assert_eq!(s.workspace_creation_source(), Some(0));
    s.active = None;
    assert_eq!(s.workspace_creation_source(), Some(1));
    s.selected = 9;
    assert_eq!(s.workspace_creation_source(), None);
    s.selected = 1;
    s.workspaces[1].identity_cwd = Some("/seed".into());
    assert_eq!(s.workspace_creation_cwd(1).as_deref(), Some("/seed"));
    term(&mut s, "term_2").cwd = Some("/cached".into());
    assert_eq!(s.workspace_creation_cwd(1).as_deref(), Some("/cached"));
    assert_eq!(s.follow_cwd_for_pane_in_workspace(1, 2).as_deref(), Some("/cached"));
    assert!(matches!(
        s.begin_tui_workspace_create(false, &CwdPolicy::Follow, "/x".into()),
        NewWorkspaceStep::Create
    ));
    assert!(matches!(
        s.begin_tui_workspace_create(true, &CwdPolicy::Follow, "/x".into()),
        NewWorkspaceStep::AskForName(PendingCwd::Follow { source_workspace_id: Some(id), suggested_cwd })
            if id == "b" && suggested_cwd == "/x"
    ));
    assert!(matches!(
        s.begin_tui_workspace_create(true, &CwdPolicy::Home, "/x".into()),
        NewWorkspaceStep::AskForName(PendingCwd::Resolved(cwd)) if cwd == "/x"
    ));
    s.after_tui_workspace_create();
    assert_eq!(s.mode, Mode::Navigate);
    s.active = Some(0);
    s.after_tui_workspace_create();
    assert_eq!(s.mode, Mode::Terminal);
}

fn new_workspace(id: &str, pane: u64) -> NewWorkspace {
    NewWorkspace {
        id: id.into(),
        auto_label: "auto".into(),
        identity_cwd: None,
        pane: new_pane(pane, id),
    }
}

#[test]
fn a_tab_asked_for_from_the_interface_goes_to_the_active_workspace() {
    let mut s = session(vec![workspace("one", &[1]), workspace("two", &[2])]);
    s.active = Some(1);
    let created = s.create_tab(Some("logs".into()), Ok(StartedTab::InActive(new_pane(9, "two"))));
    assert_eq!(created, Ok(()));
    assert_eq!(s.workspaces[1].active_tab, 1);
    assert_eq!(s.workspaces[1].tabs[1].custom_name.as_deref(), Some("logs"));
    assert_eq!(s.mode, Mode::Terminal);
    assert!(s.save_scheduled);
    assert!(matches!(&s.events[..], [
        Event::TabCreated { tab },
        Event::PaneCreated { pane },
    ] if tab.label == "logs" && tab.number == 2 && pane.focused));
}

#[test]
fn a_tab_asked_for_without_a_workspace_makes_one() {
    let mut s = session(Vec::new());
    let started = StartedTab::InNewWorkspace(new_workspace("fresh", 4));
    assert_eq!(s.create_tab(Some("logs".into()), Ok(started)), Ok(()));
    assert_eq!(s.active, Some(0));
    assert_eq!(s.workspaces[0].custom_name, None);
    assert_eq!(s.workspaces[0].tabs[0].custom_name.as_deref(), Some("logs"));
    assert!(matches!(&s.events[..], [
        Event::WorkspaceCreated { workspace },
        Event::TabCreated { tab },
        Event::PaneCreated { .. },
    ] if workspace.label == "auto" && tab.label == "logs"));
    let failed = s.create_tab(None, Err("no pty".into()));
    assert_eq!(failed, Err("no pty".to_string()));
    assert_eq!(s.events.len(), 3);
}

#[test]
fn a_new_workspace_follows_the_focused_pane_unless_told_where() {
    let mut s = session(vec![workspace("one", &[1])]);
    s.active = Some(0);
    term(&mut s, "term_1").cwd = Some("/leader".into());
    let plan = s.plan_workspace_create(&None);
    assert_eq!((plan.cwd, plan.follow.as_deref()), (None, Some("/leader")));
    let plan = s.plan_workspace_create(&Some("/other".into()));
    assert_eq!((plan.cwd.as_deref(), plan.follow), (Some("/other"), None));
}

#[test]
fn positions_stay_valid_through_moves_and_closes() {
    let mut s = session(vec![
        workspace("one", &[1, 2]),
        workspace("two", &[3]),
        workspace("three", &[4]),
    ]);
    s.active = Some(0);
    s.workspaces[0].active_tab = 1;
    assert_eq!(code(&s.handle_tab_move("m".into(), "one:t2", 0)), "ok");
    assert_eq!(s.workspaces[0].tabs[s.workspaces[0].active_tab].public_id, "one:t2");
    assert_eq!(code(&s.handle_workspace_move("m".into(), "one", 3)), "ok");
    assert_eq!(s.workspaces[s.active.unwrap()].id, "one");
    let block = WorkspaceMoveBlockParams {
        workspace_ids: vec!["one".into(), "two".into()],
        before_workspace_id: None,
    };
    assert_eq!(code(&s.handle_workspace_move_block("m".into(), block)), "ok");
    assert_eq!(s.workspaces[s.active.unwrap()].id, "one");
    assert_eq!(code(&s.handle_tab_close("c".into(), "one:t1", false)), "ok");
    assert_eq!(s.workspaces[s.active.unwrap()].active_tab, 0);
    for id in ["one", "two", "three"] {
        assert_eq!(code(&s.handle_workspace_close("c".into(), id)), "ok");
        assert!(s.active.map_or(s.workspaces.is_empty(), |a| a < s.workspaces.len()));
    }
    assert_eq!(s.active, None);
}

#[test]
fn a_new_name_is_shown() {
    let mut s = session(vec![workspace("one", &[1])]);
    let tab = s.handle_tab_rename("r".into(), "one:t1", "build".into()).body.unwrap();
    assert_eq!(tab.label, "build");
    let ws = s.handle_workspace_rename("r".into(), "one", "main".into()).body.unwrap();
    assert_eq!(ws.label, "main");
}

// --- prompts and keys, as the server carries them out ----------------------------------------

/// What was written for one submission: the text, and the submitting key after it.
type Sent = Vec<Vec<u8>>;

/// Prompt the agent in `pane_id`; `text` and `enter` are the submission as the terminal encodes
/// it.
fn prompt_call(
    s: &Session,
    pane_id: &str,
    params: &PromptParams,
    text: &[u8],
    enter: &[u8],
) -> (Response<Prompted>, Sent) {
    let mut sent = Sent::new();
    let planned = s.begin_agent_prompt(params, at(s, pane_id)).and_then(|here| {
        let plan = s.plan_agent_prompt(params, &here)?;
        let focus = Ok(b"\x1b[I".to_vec());
        let mut bytes = prompt_bytes(plan.agent, focus, text.to_vec())?;
        bytes.extend_from_slice(enter);
        sent.push(bytes);
        Ok((here, plan))
    });
    let response = match planned {
        Ok((here, plan)) => s.finish_agent_prompt("p".into(), params, &here, plan, Ok(())),
        Err(e) => Response { id: "p".into(), body: Err(e) },
    };
    (response, sent)
}

fn prompt_body(s: &Session, params: &PromptParams) -> (Response<Prompted>, Sent) {
    prompt_call(s, "w1-1", params, params.text.as_bytes(), b"\r")
}

fn keys_call(s: &Session, encoded: Result<Vec<Vec<u8>>, String>) -> (Response<()>, Sent) {
    let mut sent = Sent::new();
    let response = match s.plan_agent_send_keys("worker", at(s, "w1-1")).and_then(|_| key_bytes(encoded)) {
        Ok(bytes) => {
            sent.push(bytes);
            sent_reply("k".into(), "agent_send_keys_failed", Ok(()))
        }
        Err(e) => Response { id: "k".into(), body: Err(e) },
    };
    (response, sent)
}

#[test]
fn m839b_prompt_and_send_input_share_one_real_queue_item_without_authority() {
    let s = promptable();
    let text = "M839-HEADER\nbody\nnext";
    for enter in [b"\r".as_slice(), b"\r", b"\x1b[13u", b"\x1b[13u"] {
        for bracketed in [false, true] {
            let encoded = if bracketed {
                format!("\x1b[200~{text}\x1b[201~").into_bytes()
            } else {
                text.as_bytes().to_vec()
            };
            let mut expected = encoded.clone();
            expected.extend_from_slice(enter);
            let params = prompt(text, Some("term_1"));
            let (response, prompt_items) = prompt_call(&s, "w1-1", &params, &encoded, enter);
            let prompted = response.body.unwrap();
            assert_eq!(prompted.baseline_state_change_seq, 4);
            assert_eq!(prompted.agent.pane.terminal_id, "term_1");
            assert_eq!(prompted.agent.pane.agent.as_deref(), Some("codex"));
            assert!(prompted.agent.pane.agent_session.is_none());
            let (response, send_items) = keys_call(&s, Ok(vec![encoded, enter.to_vec()]));
            assert_eq!(code(&response), "ok");
            assert_eq!(prompt_items.len(), 1);
            assert_eq!(send_items.len(), 1);
            assert_eq!(prompt_items, send_items);
            assert_eq!(prompt_items[0], expected, "bracketed={bracketed}");
            assert_eq!(s.terminals[0].confirmed_hook_label, None);
            assert!(s.terminals[0].persisted_session.is_none());
            assert!(s.authoritative_receiver_identity("w1-1").is_none());
        }
    }
    let receipt = plan_zynk_message_received(&s, received("w1-1", None), true).unwrap_err();
    assert_eq!(receipt.code, "receiver_identity_unverified");
}

#[test]
fn m839b_prompt_terminal_precondition_precedes_readiness_and_missing_pin_is_optional() {
    let mut s = promptable();
    term(&mut s, "term_1").state = AgentState::Working;
    let (changed, attempts) = prompt_body(&s, &prompt("body", Some("term_old")));
    assert_eq!(code(&changed), "agent_target_changed");
    assert!(attempts.is_empty());
    let (working, attempts) = prompt_body(&s, &prompt("body", Some("term_1")));
    assert_eq!(code(&working), "agent_working");
    assert!(attempts.is_empty());
    term(&mut s, "term_1").state = AgentState::Idle;
    let (unbound, attempts) = prompt_body(&s, &prompt("body", None));
    assert_eq!(code(&unbound), "ok");
    assert_eq!(attempts, [b"body\r".to_vec()]);
}

#[test]
fn m839b_prompt_refuses_empty_unready_and_actual_foreground_mismatch() {
    let mut s = promptable();
    for state in [AgentState::Idle, AgentState::Working, AgentState::Unknown] {
        term(&mut s, "term_1").state = state;
        let (empty, attempts) = prompt_body(&s, &prompt("", Some("term_1")));
        assert_eq!(code(&empty), "empty_agent_prompt");
        assert!(attempts.is_empty());
    }
    let (unknown, attempts) = prompt_body(&s, &prompt("body", Some("term_1")));
    assert_eq!(code(&unknown), "agent_not_ready");
    assert!(attempts.is_empty());

    let other_agent = ForegroundJob { identified: Some(Agent::Pi), hints: vec![Some(Agent::Codex)] };
    let non_agent = ForegroundJob { identified: None, hints: vec![None] };
    for job in [Some(other_agent), Some(non_agent), None] {
        let mut s = promptable();
        term(&mut s, "term_1").runtime.as_mut().unwrap().job = job;
        let (mismatch, attempts) = prompt_body(&s, &prompt("body", Some("term_1")));
        assert_eq!(code(&mismatch), "agent_not_ready");
        assert!(message(&mismatch).contains("foreground"));
        assert!(attempts.is_empty());
    }
}

#[test]
fn m839b_pending_exit_keeps_session_observation_but_refuses_prompt_and_receipt() {
    let mut s = promptable();
    let t = term(&mut s, "term_1");
    t.hook_authority = Some(HookAuthority {
        source: "zynk:codex".into(),
        agent_label: "codex".into(),
        session_ref: Some(SessionRef { kind: SessionRefKind::Id, value: "old-session".into() }),
    });
    t.confirmed_hook_label = Some("codex".into());
    assert!(s.authoritative_receiver_identity("w1-1").is_some());
    let (before_exit, attempts) = prompt_body(&s, &prompt("before exit", Some("term_1")));
    let prompted = before_exit.body.unwrap();
    assert_eq!(prompted.agent.pane.agent_session.unwrap().value, "old-session");
    assert_eq!(attempts, [b"before exit\r".to_vec()]);

    term(&mut s, "term_1").runtime.as_mut().unwrap().exit_pending = true;
    let observed = s.handle_agent_get("g".into(), "worker", at(&s, "w1-1")).body.unwrap();
    assert_eq!(observed.pane.agent_session.unwrap().value, "old-session");
    assert!(s.authoritative_receiver_identity("w1-1").is_none());
    let (refused, attempts) = prompt_body(&s, &prompt("body", Some("term_1")));
    assert_eq!(code(&refused), "agent_not_ready");
    assert!(attempts.is_empty());
    assert!(s.terminals[0].runtime.as_ref().unwrap().exit_pending);

    let t = term(&mut s, "term_1");
    t.runtime.as_mut().unwrap().exit_pending = false;
    t.hook_authority = None;
    t.confirmed_hook_label = None;
    assert!(s.authoritative_receiver_identity("w1-1").is_none());
}

#[test]
fn m870_blocked_detection_refuses_prompt_without_minting_receiver_authority() {
    let mut s = promptable();
    term(&mut s, "term_1").state = AgentState::Blocked;
    let (response, attempts) = prompt_body(&s, &prompt("body", Some("term_1")));
    assert_eq!(code(&response), "agent_blocked");
    assert!(attempts.is_empty());
    assert_eq!(s.terminals[0].confirmed_hook_label, None);
    assert!(s.terminals[0].persisted_session.is_none());
    assert!(s.authoritative_receiver_identity("w1-1").is_none());
}

#[test]
fn m871_copilot_focus_and_prompt_share_one_delayed_submission() {
    let mut s = promptable();
    let t = term(&mut s, "term_1");
    t.known_agent = Some(Agent::GithubCopilot);
    t.runtime.as_mut().unwrap().job =
        Some(ForegroundJob { identified: Some(Agent::GithubCopilot), hints: Vec::new() });
    let (response, attempts) = prompt_body(&s, &prompt("body", Some("term_1")));
    assert_eq!(code(&response), "ok");
    assert_eq!(attempts, [b"\x1b[Ibody\r".to_vec()]);
    assert!(s.authoritative_receiver_identity("w1-1").is_none());
    assert_eq!(PROMPT_SUBMIT_DELAY_MS, 300);
}

#[test]
fn m840_agent_send_keys_validates_all_keys_before_one_enqueue() {
    let s = promptable();
    let (rejected, attempts) = keys_call(&s, Err("not-a-key".into()));
    assert_eq!(code(&rejected), "invalid_key");
    assert!(attempts.is_empty());
    let (sent, attempts) = keys_call(&s, Ok(vec![b"\x1b[A".to_vec(), b"\r".to_vec()]));
    assert_eq!(code(&sent), "ok");
    assert_eq!(attempts, [b"\x1b[A\r".to_vec()]);
}

#[test]
fn an_agent_in_front_is_no_stand_in_for_another() {
    let agents = [Agent::Gemini, Agent::Hermes, Agent::Other(1), Agent::Other(2)];
    for expected in agents {
        for in_front in agents {
            let mut s = promptable();
            let t = term(&mut s, "term_1");
            t.known_agent = Some(expected);
            t.runtime.as_mut().unwrap().job =
                Some(ForegroundJob { identified: Some(in_front), hints: Vec::new() });
            let (response, attempts) = prompt_body(&s, &prompt("body", None));
            let (keys, written) = keys_call(&s, Ok(vec![b"x".to_vec()]));
            let answer = if expected == in_front { "ok" } else { "agent_not_ready" };
            assert_eq!((code(&response), code(&keys)), (answer, answer));
            assert_eq!(attempts.is_empty() && written.is_empty(), expected != in_front);
            assert!(matches!(
                s.plan_agent_explain("worker", at(&s, "w1-1")),
                Ok(Explain::Evaluate { agent }) if agent == expected
            ));
        }
    }
}

// --- rounds of the loop over a session --------------------------------------------------------

fn schedule() -> Schedule {
    Schedule {
        next_resize_poll: 3_600_000,
        last_terminal_size: None,
        config_diagnostic: None,
        config_diagnostic_deadline: None,
        toast: None,
        toast_deadline: None,
        copy_feedback: None,
        copy_feedback_deadline: None,
        notification_deadline: None,
        managed_agent_deadline: None,
        selection: None,
        selection_autoscroll: None,
        selection_autoscroll_deadline: None,
        selection_highlight_clear_deadline: None,
        next_auto_update_check: None,
        next_agent_manifest_update_check: None,
        agent_metadata_deadline: None,
        pending_agent_resume_deadline: None,
        session_save_deadline: None,
        last_render_at: None,
        last_presentation_at: None,
        updates: UpdateSwitches {
            no_session: true,
            version_check: false,
            manifest_check: false,
            update_available: false,
        },
    }
}

/// One round of scheduled tasks in which agents whose state changed are in `reconciled`, and
/// presentation expires for the panes in `shown`: whether anything changed.
fn scheduled_round(
    s: &mut Session,
    state: &mut Schedule,
    now: u64,
    reconciled: &Vec<(usize, u64)>,
    shown: &Vec<(usize, u64)>,
) -> bool {
    let due = state.due_work(now);
    if due.expire_metadata {
        s.expire_metadata_at(shown, now);
    }
    let done = WorkDone {
        terminal_size: None,
        notified: false,
        next_notification: None,
        toast: None,
        toast_deadline: None,
        selection_rect: None,
        selection_scroll: None,
        next_session_save: None,
        next_metadata_expiry: s.metadata_deadline,
        reconciled: due.reconcile_agents && s.managed_agents_reconciled(reconciled),
        next_managed_agent: None,
        resume_deadline: None,
    };
    let intervals =
        Intervals { resize_poll: 100, min_render: 16, selection_autoscroll: 30, update_check: 1 };
    let mut git = GitRefresh {
        in_flight: false,
        due_after_in_flight: false,
        identity_requested: false,
        last_remote_status: 0,
        last_repo_discovery: 0,
        cache: Vec::new(),
    };
    let repositories = Repositories {
        workspaces: Vec::new(),
        demand: RefreshDemand { branch: false, ahead_behind: false },
        intervals: RefreshIntervals { remote_status: 5, repo_discovery: 60 },
    };
    let round =
        state.handle_scheduled_tasks(now, false, intervals, done, &mut git, &repositories);
    round.changed_after_resumes(false)
}

#[test]
fn m828a_scheduled_expiry_preserves_agent_presentation_and_workspace_tokens() {
    let mut s = session(vec![workspace("test", &[1])]);
    let t = term(&mut s, "term_1");
    t.state = AgentState::Working;
    t.agent_label = Some("pi".into());
    t.hook_authority = Some(HookAuthority {
        source: "zynk:pi".into(),
        agent_label: "pi".into(),
        session_ref: None,
    });
    t.confirmed_hook_label = Some("pi".into());
    t.presentation = Presentation {
        title: Some("temporary title".into()),
        display_agent: Some("display pi".into()),
        state_labels: vec![StateLabel { state: "working".into(), label: "busy label".into() }],
    };
    let pane_deadline = 60_000;
    s.presentation_deadline = Some(pane_deadline);
    s.sync_agent_metadata_deadline();
    assert_eq!(s.metadata_deadline, Some(pane_deadline));
    let info = s.pane_info(0, 1).unwrap();
    assert_eq!(info.title.as_deref(), Some("temporary title"));
    assert_eq!(info.state_labels[0].label, "busy label");
    let hook = format!("{:?}", s.terminals[0].hook_authority);

    let mut co_expiry = report(&[("build", Some("ready"))]);
    co_expiry.ttl_ms = Some(1000);
    co_expiry.seq = Some(2);
    let response = s.handle_workspace_report_metadata("co-expiry".into(), "test", &co_expiry, 0);
    assert_eq!(code(&response), "ok");
    let token_deadline = s.workspaces[0].tokens.next_expiry().unwrap();
    assert_eq!(s.metadata_deadline, Some(pane_deadline.min(token_deadline)));

    let mut state = schedule();
    state.agent_metadata_deadline = s.metadata_deadline;
    state.toast = Some("existing toast".into());
    state.toast_deadline = Some(state.next_resize_poll);
    let start = s.events.len();
    let now = pane_deadline.max(token_deadline) + 1;
    let t = term(&mut s, "term_1");
    t.presentation = Presentation { title: None, display_agent: None, state_labels: Vec::new() };
    s.presentation_deadline = None;
    assert!(scheduled_round(&mut s, &mut state, now, &vec![], &vec![(0, 1)]));

    let info = s.pane_info(0, 1).unwrap();
    assert_eq!(info.title, None);
    assert_eq!(s.terminals[0].state, AgentState::Working);
    assert_eq!(format!("{:?}", s.terminals[0].hook_authority), hook);
    assert_eq!(s.terminals[0].confirmed_hook_label.as_deref(), Some("pi"));
    assert_eq!(state.toast.as_deref(), Some("existing toast"));
    assert_eq!(state.agent_metadata_deadline, None);
    assert_eq!(s.metadata_deadline, None);
    assert!(s.workspaces[0].tokens.tokens.is_empty());
    let events = &s.events[start..];
    assert_eq!(events.len(), 2, "fresh suffix only: {events:?}");
    assert!(matches!(&events[0], Event::PaneAgentStatusChanged {
        agent_status: AgentStatus::Working,
        title: None,
        display_agent: None,
        state_labels,
        ..
    } if state_labels.is_empty()));
    assert!(matches!(&events[1], Event::WorkspaceMetadataUpdated { workspace }
        if workspace.tokens.is_empty() && workspace.workspace_id == "test"));
    let after = s.events.len();
    assert!(!scheduled_round(&mut s, &mut state, now, &vec![], &vec![(0, 1)]));
    assert_eq!(s.events.len(), after);
}

#[test]
fn reconciled_agents_are_told_of_in_order_and_saved() {
    let mut s = session(vec![workspace("a", &[1, 2]), workspace("b", &[3])]);
    let mut state = schedule();
    state.managed_agent_deadline = Some(50);
    assert!(!scheduled_round(&mut s, &mut state, 49, &vec![(0, 1)], &vec![]));
    assert!(s.events.is_empty() && !s.save_scheduled);
    assert!(scheduled_round(&mut s, &mut state, 50, &vec![(1, 3), (0, 9), (0, 1)], &vec![]));
    assert!(s.save_scheduled);
    assert!(matches!(&s.events[..], [
        Event::PaneUpdated { pane: first },
        Event::PaneUpdated { pane: second },
    ] if first.pane_id == "b-3" && second.pane_id == "a-1"));
    assert_eq!(state.managed_agent_deadline, None);
    let mut s = session(vec![workspace("a", &[1])]);
    assert!(!s.managed_agents_reconciled(&vec![]));
    assert!(s.events.is_empty() && !s.save_scheduled);
}

// --- laws of reports ---------------------------------------------------------------------------

#[test]
fn a_refused_report_leaves_its_number_to_a_valid_one() {
    let mut s = metadata_session();
    let mut bad = report(&[("no space", Some("x")), ("fine", Some("y"))]);
    bad.seq = Some(7);
    assert_eq!(code(&send(&mut s, &bad)), "invalid_metadata_token");
    assert!(tokens(&s, 1).is_empty() && s.events.is_empty());
    let mut good = report(&[("fine", Some("z"))]);
    good.seq = Some(7);
    ok(send(&mut s, &good));
    assert_eq!(value(&s, 1, "fine").as_deref(), Some("z"));
}

#[test]
fn an_accepted_number_stays_stale_whatever_comes_between() {
    let mut s = metadata_session();
    let numbered = |source: &str, seq: Option<u64>, set: Option<&str>| {
        let mut r = report(&[("key", set)]);
        r.source = source.into();
        r.seq = seq;
        r.ttl_ms = Some(10);
        r
    };
    ok(send(&mut s, &numbered("user:build", Some(5), Some("a"))));
    ok(send(&mut s, &numbered("user:build", None, None)));
    ok(send(&mut s, &numbered("user:other", Some(1), Some("b"))));
    s.expire_metadata_at(&vec![], 1_000_000);
    let events = s.events.len();
    for stale in [5, 4, 0] {
        ok(send(&mut s, &numbered("user:build", Some(stale), Some("late"))));
    }
    assert_eq!(value(&s, 1, "key"), None);
    assert_eq!(s.events.len(), events);
}

// --- dragging workspaces -----------------------------------------------------------------------

fn in_repository(mut ws: Workspace) -> Workspace {
    ws.worktree = Some(WorktreeSpace {
        key: "repo-key".into(),
        label: "repo".into(),
        repo_root: "/repo".into(),
        checkout_path: format!("/repo/{}", ws.id),
        is_linked_worktree: ws.id != "main",
    });
    ws
}

#[test]
fn m828d1_packed_drag_boundaries_keep_group_identity() {
    let mut s = session(vec![
        in_repository(workspace("main", &[1])),
        workspace("normal", &[2]),
        in_repository(workspace("issue", &[3])),
        workspace("notes", &[4]),
    ]);
    s.active = Some(1);
    s.selected = 3;
    let view = SidebarView {
        sidebar: Rect::new(0, 0, 26, 40),
        collapsed: false,
        list_area: Rect::new(0, 0, 25, 20),
        detail_area: Rect::new(0, 20, 25, 20),
        collapsed_list: Rect::empty(),
        collapsed_detail: Rect::empty(),
        expanded_toggle: Rect::empty(),
        collapsed_toggle: Rect::empty(),
        section_divider: Rect::empty(),
        sort_toggle: Rect::empty(),
        screen: Rect::new(0, 0, 106, 40),
        mobile: false,
        mobile_menu: Rect::empty(),
        agent_view_active: false,
        update_available: false,
        release_notes_available: false,
        attention_badge: false,
        update_badge: false,
    };
    let cards: Vec<Card> = [0, 2, 1, 3]
        .into_iter()
        .enumerate()
        .map(|(i, ws_idx)| Card { rect: Rect::new(0, 1 + i as u16, 25, 1), ws_idx })
        .collect();
    let groups: Vec<Option<String>> = s
        .workspaces
        .iter()
        .map(|ws| ws.worktree.as_ref().map(|space| space.key.clone()))
        .collect();
    let rows = vec![Some(1), Some(3), Some(2), Some(4), Some(5)];
    let drop_at = |row| view.workspace_drop_index_at_row(row, &cards, &groups, &rows);
    assert_eq!(drop_at(1), Some(0));
    for y in 1..5 {
        assert!(drop_at(y).is_some());
        assert_ne!(drop_at(y), Some(2), "no interior-group insertion at {y}");
    }
    let dragged = view.workspace_at_row(3, &cards).unwrap();
    assert_eq!(dragged, 1);
    let id = s.workspaces[dragged].id.clone();
    assert_eq!(code(&s.handle_workspace_move("drop".into(), &id, drop_at(1).unwrap())), "ok");
    assert_eq!(names(&s), ["normal", "main", "issue", "notes"]);
    assert_eq!(s.active, Some(0));
    assert_eq!(s.selected, 3);
    assert_eq!(s.workspaces[0].id, "normal");
    assert_eq!(s.workspaces[3].id, "notes");
    for idx in [1, 2] {
        assert_eq!(s.workspaces[idx].worktree.as_ref().unwrap().key, "repo-key");
    }
}

#[test]
fn a_token_that_outlives_the_clock_never_expires() {
    let mut s = metadata_session();
    let mut late = report(&[("build", Some("ok"))]);
    late.ttl_ms = Some(1000);
    ok(s.handle_workspace_report_metadata("m828a-request".into(), "target", &late, u64::MAX - 999));
    assert_eq!(s.metadata_deadline, None);
    ok(s.handle_workspace_report_metadata("m828a-request".into(), "target", &late, u64::MAX - 1000));
    assert_eq!(s.metadata_deadline, Some(u64::MAX));
}
