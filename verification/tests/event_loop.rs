use zynk::geometry::Rect;
use zynk::git_refresh::{
    cached_result_stands, deduplicate_git_refresh_items, git_refresh_demand, last_path_component,
    publish_refresh, refresh_workspace_git_statuses_with_cache_and_demand,
    workspace_git_refresh_items, CacheEntry, CacheRow, GitRefresh, GitSpace, GitWorkspace,
    JobOutcome, RefreshDemand, RefreshIntervals, RefreshItem, SpaceToken, StatusSnapshot,
};
use zynk::input::{
    InputAction, InputState, KeyKind, RawInput, RepeatEvent, RepeatPlan, RepeatRun, RepeatStep,
};
use zynk::paths::same_path;
use zynk::runtime::{
    reap_finished_detached_processes, retain_detached_process_after_wait, Autoscroll,
    AutoscrollDirection, AutoscrollStep, Intervals, Repositories, Round, Schedule, Selection,
    SelectionPhase, UpdateSwitches, WaitOutcome, WorkDone,
};
use zynk::session::ScrollMetrics;

const ALL: RefreshDemand = RefreshDemand { branch: true, ahead_behind: true };

const EVERY: RefreshIntervals = RefreshIntervals { remote_status: 5, repo_discovery: 60 };

const INTERVALS: Intervals = Intervals {
    resize_poll: 100,
    min_render: 16,
    selection_autoscroll: 30,
    update_check: 1_000,
};

// --- git -------------------------------------------------------------------------------------

fn refresh() -> GitRefresh {
    GitRefresh {
        in_flight: false,
        due_after_in_flight: false,
        identity_requested: false,
        last_remote_status: 100,
        last_repo_discovery: 100,
        cache: Vec::new(),
    }
}

fn git_workspace(id: &str, cwd: Option<&str>, cached: &str, key: &str) -> GitWorkspace {
    GitWorkspace {
        id: id.into(),
        identity_cwd: cwd.map(str::to_string),
        cached_identity_cwd: cached.into(),
        cached_git_status_key: key.into(),
    }
}

fn snapshot(label: &str, branch: Option<&str>) -> StatusSnapshot {
    StatusSnapshot {
        auto_label: label.into(),
        branch: branch.map(str::to_string),
        ahead_behind: None,
        space: None,
    }
}

fn row(key: &str, fingerprint: Option<u64>, label: &str) -> CacheRow {
    CacheRow {
        key: key.into(),
        entry: CacheEntry { fingerprint, retry_after: None, snapshot: snapshot(label, None) },
    }
}

fn item(id: &str, cwd: &str, hint: Option<&str>, found: Option<&str>) -> RefreshItem {
    RefreshItem {
        workspace_id: id.into(),
        cwd: cwd.into(),
        cache_key_hint: hint.map(str::to_string),
        discovered_key: found.map(str::to_string),
    }
}

#[test]
fn m828d2_git_demand_follows_plain_configured_tokens() {
    for (rows, branch, ahead_behind) in [
        (vec![vec![SpaceToken::Workspace]], false, false),
        (vec![vec![SpaceToken::Branch]], true, false),
        (vec![vec![SpaceToken::GitStatus]], false, true),
        (vec![vec![SpaceToken::Branch, SpaceToken::GitStatus]], true, true),
        (vec![vec![SpaceToken::Custom, SpaceToken::Custom]], false, false),
        (vec![], false, false),
    ] {
        let now = 500;
        let mut git = refresh();
        git.last_remote_status = now - EVERY.remote_status;
        let demand = git_refresh_demand(&rows);
        assert_eq!(demand, RefreshDemand { branch, ahead_behind }, "rows {rows:?}");
        assert_eq!(
            git.git_refresh_deadline(true, demand, EVERY.remote_status),
            (branch || ahead_behind).then_some(now)
        );
    }
}

#[test]
fn shared_root_repo_refresh_keeps_workspace_specific_fallback_labels() {
    let cached = CacheEntry {
        fingerprint: None,
        retry_after: Some(30),
        snapshot: StatusSnapshot {
            auto_label: "/".into(),
            branch: Some("main".into()),
            ahead_behind: None,
            space: Some(GitSpace {
                key: "/.git".into(),
                checkout_key: "/".into(),
                repo_name: "repo".into(),
                repo_root: "/".into(),
                is_linked_worktree: false,
            }),
        },
    };
    let items = || {
        vec![
            item("alpha", "/alpha", Some("/"), None),
            item("beta", "/beta", Some("/"), None),
        ]
    };
    let cache = vec![CacheRow { key: "/".into(), entry: cached }];
    let jobs = deduplicate_git_refresh_items(items(), &cache);
    assert_eq!(jobs.len(), 1);
    assert!(cached_result_stands(&jobs[0], 0));
    assert!(!cached_result_stands(&jobs[0], 30));
    let output = refresh_workspace_git_statuses_with_cache_and_demand(
        items(),
        &cache,
        ALL,
        &vec![JobOutcome::Cached],
    );
    assert_eq!(output.cache_updates.len(), 1);
    assert_eq!(output.results.len(), 2);
    assert_eq!(output.results[0].auto_label, "alpha");
    assert_eq!(output.results[1].auto_label, "beta");
    assert_eq!(output.results[0].branch.as_deref(), Some("main"));
    assert_eq!(output.results[1].branch.as_deref(), Some("main"));
}

#[test]
fn git_refresh_item_collection_reuses_matching_cached_key() {
    let workspaces =
        vec![git_workspace("test", Some("/repo/deep/nested"), "/repo/deep/nested", "/repo")];
    let items = workspace_git_refresh_items(&workspaces, false);
    assert_eq!(items.len(), 1);
    assert_eq!(items[0].cache_key_hint.as_deref(), Some("/repo"));
    let moved = vec![
        git_workspace("test", Some("/elsewhere"), "/repo/deep/nested", "/repo"),
        git_workspace("unplaced", None, "/repo", "/repo"),
    ];
    let items = workspace_git_refresh_items(&moved, false);
    assert_eq!(items.len(), 1);
    assert_eq!(items[0].cwd, "/elsewhere");
    assert_eq!(items[0].cache_key_hint, None);
}

#[test]
fn periodic_repo_discovery_ignores_cached_key_hints() {
    let workspaces =
        vec![git_workspace("test", Some("/repo/deep/nested"), "/repo/deep/nested", "/repo")];
    let items = workspace_git_refresh_items(&workspaces, true);
    assert_eq!(items.len(), 1);
    assert_eq!(items[0].cache_key_hint, None);
    let cache = vec![row("/repo/deep/nested", None, "stale")];
    let jobs = deduplicate_git_refresh_items(items, &cache);
    assert_eq!(jobs.len(), 1);
    assert!(jobs[0].cached.is_none());
}

#[test]
fn any_reconciliation_target_invalidates_the_shared_cached_job() {
    for hints in [[true, false], [false, true], [true, true]] {
        let items = hints
            .into_iter()
            .enumerate()
            .map(|(idx, hinted)| {
                item(&format!("workspace-{idx}"), "/root", hinted.then_some("/root"), Some("/root"))
            })
            .collect();
        let jobs = deduplicate_git_refresh_items(items, &vec![row("/root", Some(1), "root")]);
        assert_eq!(jobs.len(), 1);
        assert_eq!(jobs[0].targets.len(), 2);
        let cached = row("/root", Some(1), "root").entry;
        let expected = hints.iter().all(|hint| *hint).then_some(cached);
        assert_eq!(format!("{:?}", jobs[0].cached), format!("{expected:?}"));
    }
}

#[test]
fn jobs_keep_the_order_of_keys_and_of_targets() {
    let items = vec![
        item("a", "/x/1", None, Some("/x")),
        item("b", "/y", None, None),
        item("c", "/x/2", Some("/x"), None),
    ];
    let jobs = deduplicate_git_refresh_items(items, &vec![row("/x", Some(1), "x")]);
    assert_eq!(jobs.iter().map(|job| job.cache_key.as_str()).collect::<Vec<_>>(), ["/x", "/y"]);
    assert_eq!(
        jobs[0].targets.iter().map(|t| t.workspace_id.as_str()).collect::<Vec<_>>(),
        ["a", "c"]
    );
    assert!(jobs[0].cached.is_none());
    let output = publish_refresh(
        &jobs,
        &vec![
            JobOutcome::Probed {
                snapshot: snapshot("x", Some("main")),
                entry: Some(row("/x", Some(2), "x").entry),
            },
            JobOutcome::Probed { snapshot: snapshot("/", None), entry: None },
        ],
        ALL,
    );
    assert_eq!(
        output
            .results
            .iter()
            .map(|r| (r.workspace_id.as_str(), r.auto_label.as_str(), r.cache_key.as_str()))
            .collect::<Vec<_>>(),
        [("a", "x", "/x"), ("c", "x", "/x"), ("b", "y", "/y")]
    );
    assert_eq!(output.cache_updates.len(), 1);
    assert_eq!(output.cache_updates[0].key, "/x");
    assert_eq!(output.cache_updates[0].entry.fingerprint, Some(2));
}

#[test]
fn paths_are_compared_by_their_components() {
    for (a, b) in [
        ("/a", "/a/"),
        ("/a/b", "//a//./b/."),
        ("a/b", "a/./b"),
        ("./a", ".//./a/"),
        ("/", "//."),
        ("", ""),
    ] {
        assert!(same_path(a, b), "{a:?} {b:?}");
        assert_eq!(std::path::Path::new(a), std::path::Path::new(b));
    }
    for (a, b) in
        [("/a", "a"), ("./a", "a"), ("a", "a/.."), ("/a", "/b"), (".", ""), ("a", "a/b"), ("..", ".")]
    {
        assert!(!same_path(a, b), "{a:?} {b:?}");
        assert_ne!(std::path::Path::new(a), std::path::Path::new(b));
    }
}

#[test]
fn one_job_serves_a_path_however_it_is_written() {
    let items = vec![
        item("one", "/a", Some("/a"), None),
        item("two", "/b", Some("/a/"), None),
        item("three", "/c", Some("/a/./x"), None),
    ];
    let jobs = deduplicate_git_refresh_items(items, &vec![row("/a/.", Some(1), "a")]);
    assert_eq!(jobs.len(), 2);
    assert_eq!((jobs[0].cache_key.as_str(), jobs[0].targets.len()), ("/a", 2));
    assert!(jobs[0].cached.is_some());
    assert_eq!((jobs[1].cache_key.as_str(), jobs[1].targets.len()), ("/a/./x", 1));
    assert!(jobs[1].cached.is_none());
    let known = vec![git_workspace("w", Some("/a/"), "/a", "/key")];
    let items = workspace_git_refresh_items(&known, false);
    assert_eq!(items[0].cache_key_hint.as_deref(), Some("/key"));
}

#[test]
fn last_components_of_paths() {
    for (path, expected) in
        [("/a/b", "b"), ("/a/b//", "b"), ("/", "/"), ("///", "/"), ("name", "name"), ("", "")]
    {
        assert_eq!(last_path_component(path), expected, "{path}");
    }
}

#[test]
fn headless_deadline_can_suppress_git_refresh_timer() {
    let now = 500;
    let mut git = refresh();
    git.last_remote_status = now - EVERY.remote_status;
    let due = git.git_refresh_deadline(true, ALL, EVERY.remote_status);
    let loop_state = schedule();
    assert_eq!(
        loop_state.next_headless_loop_deadline_with_git_refresh(now, false, false, due, INTERVALS),
        None
    );
    assert_eq!(
        loop_state.next_headless_loop_deadline_with_git_refresh(now, false, true, due, INTERVALS),
        Some(now)
    );
}

#[test]
fn git_refresh_due_request_survives_in_flight_refresh() {
    let mut git = refresh();
    let now = 500;
    git.in_flight = true;
    git.cache = vec![row("/hit", Some(1), "hit"), row("/miss", None, "miss")];
    git.mark_git_status_refresh_due(now, EVERY.remote_status);
    assert!(git.due_after_in_flight);
    assert_eq!(git.cache.len(), 1, "results that found no repository are forgotten");
    assert_eq!(git.cache[0].key, "/hit");
    git.git_refresh_finished(now, EVERY.remote_status);
    assert!(!git.in_flight);
    assert!(!git.due_after_in_flight);
    assert_eq!(git.git_refresh_deadline(false, ALL, EVERY.remote_status), None);
    assert_eq!(git.git_refresh_deadline(true, ALL, EVERY.remote_status), Some(now));
}

#[test]
fn a_refresh_that_ended_is_an_interval_away_from_the_next() {
    let mut git = refresh();
    git.in_flight = true;
    git.git_refresh_finished(500, EVERY.remote_status);
    assert!(!git.in_flight);
    assert_eq!(
        git.git_refresh_deadline(true, ALL, EVERY.remote_status),
        Some(500 + EVERY.remote_status)
    );
}

#[test]
fn fixed_sidebar_refresh_keeps_branch_and_ahead_behind() {
    let mut git = refresh();
    let rows = vec![vec![SpaceToken::Workspace], vec![SpaceToken::Branch, SpaceToken::GitStatus]];
    let demand = git_refresh_demand(&rows);
    assert_eq!(demand, ALL);
    assert!(git.git_refresh_deadline(true, demand, EVERY.remote_status).is_some());
    git.request_git_identity_refresh(3, EVERY.remote_status);
    assert!(git.identity_requested);
    assert_eq!(git.last_remote_status, 3, "a clock too young to go back stays where it is");
}

#[test]
fn a_due_refresh_starts_once() {
    let none = RefreshDemand { branch: false, ahead_behind: false };
    let placed = vec![git_workspace("w", Some("/w"), "/w", "/w")];
    let mut git = refresh();
    assert!(git.start_git_status_refresh_if_due(104, &placed, ALL, EVERY).is_none());
    assert!(git.start_git_status_refresh_if_due(105, &placed, none, EVERY).is_none());
    let work = git.start_git_status_refresh_if_due(105, &placed, ALL, EVERY).unwrap();
    assert_eq!(work.items[0].cache_key_hint.as_deref(), Some("/w"));
    assert!(git.in_flight);
    assert_eq!(git.last_repo_discovery, 100);
    assert!(git.start_git_status_refresh_if_due(999, &placed, ALL, EVERY).is_none());
    let mut git = refresh();
    git.identity_requested = true;
    let work = git.start_git_status_refresh_if_due(105, &placed, none, EVERY).unwrap();
    assert!(work.demand.branch && !work.demand.ahead_behind);
    assert_eq!(work.items[0].cache_key_hint, None);
    assert_eq!((git.last_repo_discovery, git.identity_requested), (105, false));
    let mut git = refresh();
    let unplaced = vec![git_workspace("w", None, "/w", "/w")];
    assert!(git.start_git_status_refresh_if_due(160, &unplaced, ALL, EVERY).is_none());
    assert_eq!((git.last_remote_status, git.in_flight), (160, false));
}

// --- the loop --------------------------------------------------------------------------------

fn schedule() -> Schedule {
    Schedule {
        next_resize_poll: u64::MAX,
        last_terminal_size: None,
        config_diagnostic: None,
        config_diagnostic_deadline: None,
        toast: None,
        toast_deadline: None,
        copy_feedback: None,
        copy_feedback_deadline: None,
        notification_deadline: None,
        managed_agent_deadline: None,
        selection: None,
        selection_autoscroll: None,
        selection_autoscroll_deadline: None,
        selection_highlight_clear_deadline: None,
        next_auto_update_check: None,
        next_agent_manifest_update_check: None,
        agent_metadata_deadline: None,
        pending_agent_resume_deadline: None,
        session_save_deadline: None,
        last_render_at: None,
        last_presentation_at: None,
        updates: UpdateSwitches {
            no_session: false,
            version_check: true,
            manifest_check: true,
            update_available: false,
        },
    }
}

fn idle() -> WorkDone {
    WorkDone {
        terminal_size: None,
        notified: false,
        next_notification: None,
        toast: None,
        toast_deadline: None,
        selection_rect: None,
        selection_scroll: None,
        next_session_save: None,
        next_metadata_expiry: None,
        reconciled: false,
        next_managed_agent: None,
        resume_deadline: None,
    }
}

fn unwatched() -> Repositories {
    Repositories { workspaces: Vec::new(), demand: ALL, intervals: EVERY }
}

fn round(state: &mut Schedule, now: u64, geometry_dirty: bool, done: WorkDone) -> (bool, AutoscrollStep) {
    let mut git = refresh();
    let round = state.handle_scheduled_tasks(
        now,
        geometry_dirty,
        INTERVALS,
        done,
        &mut git,
        &unwatched(),
    );
    assert!(round.refresh.is_none());
    (round.changed, round.scroll)
}

fn inner() -> Rect {
    Rect::new(0, 0, 80, 24)
}

fn autoscroll(direction: AutoscrollDirection) -> Autoscroll {
    Autoscroll { direction, last_mouse_col: 5, last_mouse_row: 23, inner_rect: inner() }
}

fn selecting(phase: SelectionPhase) -> Schedule {
    Schedule {
        selection: Some(Selection { pane: 1, phase }),
        selection_autoscroll: Some(autoscroll(AutoscrollDirection::Down)),
        selection_autoscroll_deadline: Some(500),
        ..schedule()
    }
}

fn metrics(offset: u64, max: u64) -> Option<ScrollMetrics> {
    Some(ScrollMetrics {
        offset_from_bottom: offset,
        max_offset_from_bottom: max,
        viewport_rows: 24,
    })
}

#[test]
fn hidden_render_attempt_keeps_presentation_cadence_available() {
    let mut state = schedule();
    let initial_presentation = 1_000;
    state.record_render_attempt(initial_presentation, true);
    let hidden_attempt = initial_presentation + INTERVALS.min_render;
    state.record_render_attempt(hidden_attempt, false);
    let foreground_echo = hidden_attempt + 1;
    assert!(!state.can_render_now(foreground_echo, INTERVALS));
    assert!(state.can_present_now(foreground_echo, INTERVALS));
    assert!(schedule().can_render_now(0, INTERVALS));
    assert!(!state.can_render_now(0, INTERVALS), "a clock that reads earlier has not elapsed");
}

#[test]
fn interrupted_custom_command_wait_keeps_child_for_retry() {
    assert!(retain_detached_process_after_wait(WaitOutcome::Interrupted));
    assert!(retain_detached_process_after_wait(WaitOutcome::Running));
    assert!(!retain_detached_process_after_wait(WaitOutcome::Exited));
    assert!(!retain_detached_process_after_wait(WaitOutcome::Failed));
    assert_eq!(
        reap_finished_detached_processes(
            &vec![1, 2, 3, 4],
            &vec![
                WaitOutcome::Running,
                WaitOutcome::Exited,
                WaitOutcome::Interrupted,
                WaitOutcome::Failed
            ]
        ),
        vec![1, 3]
    );
}

fn assert_stopped(state: &Schedule) {
    assert!(state.selection_autoscroll.is_none());
    assert!(state.selection_autoscroll_deadline.is_none());
}

#[test]
fn tick_selection_autoscroll_stops_when_metrics_unavailable() {
    let mut state = selecting(SelectionPhase::Dragging);
    let step = state.tick_selection_autoscroll(500, 30, Some(inner()), None);
    assert_eq!(step, AutoscrollStep::Nothing);
    assert_stopped(&state);
}

#[test]
fn tick_selection_autoscroll_stops_when_selection_done() {
    let mut state = selecting(SelectionPhase::Done);
    state.tick_selection_autoscroll(500, 30, Some(inner()), metrics(3, 9));
    assert_stopped(&state);
}

#[test]
fn tick_selection_autoscroll_stops_when_selection_cleared() {
    let mut state = selecting(SelectionPhase::Dragging);
    state.selection = None;
    state.tick_selection_autoscroll(500, 30, Some(inner()), metrics(3, 9));
    assert_stopped(&state);
}

#[test]
fn tick_selection_autoscroll_stops_when_selection_anchored() {
    let mut state = selecting(SelectionPhase::Anchored);
    state.tick_selection_autoscroll(500, 30, Some(inner()), metrics(3, 9));
    assert_stopped(&state);
}

#[test]
fn autoscroll_goes_on_until_there_is_nothing_left_to_scroll() {
    let mut state = selecting(SelectionPhase::Dragging);
    let step = state.tick_selection_autoscroll(500, 30, Some(inner()), metrics(1, 9));
    assert_eq!(
        step,
        AutoscrollStep::Scroll { pane: 1, direction: AutoscrollDirection::Down, col: 5, row: 23 }
    );
    assert_eq!(state.selection_autoscroll_deadline, Some(530));
    state.tick_selection_autoscroll(530, 30, Some(inner()), metrics(0, 9));
    assert_stopped(&state);
    let mut state = selecting(SelectionPhase::Dragging);
    state.selection_autoscroll = Some(autoscroll(AutoscrollDirection::Up));
    assert!(matches!(
        state.tick_selection_autoscroll(500, 30, Some(inner()), metrics(8, 9)),
        AutoscrollStep::Scroll { .. }
    ));
    state.tick_selection_autoscroll(530, 30, Some(inner()), metrics(9, 9));
    assert_stopped(&state);
    let mut state = selecting(SelectionPhase::Dragging);
    state.tick_selection_autoscroll(500, 30, Some(Rect::new(0, 0, 80, 23)), metrics(3, 9));
    assert_stopped(&state);
    let mut leaked = schedule();
    leaked.selection_autoscroll_deadline = Some(1);
    leaked.tick_selection_autoscroll(500, 30, None, None);
    assert_stopped(&leaked);
}

#[test]
fn copied_highlights_go_when_their_time_is_up() {
    let mut state = schedule();
    state.selection = Some(Selection { pane: 1, phase: SelectionPhase::Done });
    state.selection_highlight_clear_deadline = Some(10);
    assert!(!state.clear_due_selection_highlight(9));
    assert!(state.clear_due_selection_highlight(10));
    assert!(state.selection.is_none() && state.selection_highlight_clear_deadline.is_none());
    state.selection = Some(Selection { pane: 1, phase: SelectionPhase::Anchored });
    state.selection_highlight_clear_deadline = Some(10);
    assert!(!state.clear_due_selection_highlight(10));
    assert!(state.selection.is_some() && state.selection_highlight_clear_deadline.is_none());
}

#[test]
fn the_earliest_deadline_wakes_the_loop() {
    let mut state = schedule();
    state.next_resize_poll = 900;
    assert_eq!(state.next_loop_deadline(0, false, None, INTERVALS), Some(900));
    state.toast_deadline = Some(700);
    state.session_save_deadline = Some(800);
    assert_eq!(state.next_loop_deadline(0, false, Some(750), INTERVALS), Some(700));
    state.last_render_at = Some(600);
    assert_eq!(state.next_loop_deadline(610, true, None, INTERVALS), Some(616));
    assert_eq!(state.next_loop_deadline(616, true, None, INTERVALS), Some(700));
    assert_eq!(state.next_loop_deadline(610, false, None, INTERVALS), Some(700));
}

#[test]
fn one_round_carries_out_what_is_due() {
    let mut state = schedule();
    state.next_resize_poll = 100;
    state.toast = Some("toast".into());
    state.toast_deadline = Some(100);
    state.copy_feedback = Some("copied".into());
    state.copy_feedback_deadline = Some(101);
    state.next_auto_update_check = Some(50);
    state.session_save_deadline = Some(90);
    state.agent_metadata_deadline = Some(100);
    let due = state.due_work(100);
    assert!(due.read_terminal_size && due.check_for_update && due.save_session);
    assert!(due.expire_metadata && !due.drain_notifications && !due.check_for_manifests);
    let done = WorkDone {
        terminal_size: Some((80, 24)),
        next_metadata_expiry: Some(300),
        resume_deadline: Some(100),
        ..idle()
    };
    let (changed, step) = round(&mut state, 100, false, done);
    assert!(changed);
    assert_eq!(step, AutoscrollStep::Nothing);
    assert_eq!(state.next_resize_poll, 200);
    assert_eq!(state.last_terminal_size, Some((80, 24)));
    assert!(state.toast.is_none() && state.toast_deadline.is_none());
    assert_eq!(state.copy_feedback.as_deref(), Some("copied"));
    assert_eq!(state.next_auto_update_check, Some(1_100));
    assert_eq!(state.session_save_deadline, None);
    assert_eq!(state.agent_metadata_deadline, Some(300));
    assert_eq!(state.pending_agent_resume_deadline, None, "the terminal was resized");
    let (changed, _) = round(&mut state, 100, false, idle());
    assert!(!changed);
}

fn resume_round(
    state: &mut Schedule,
    geometry_dirty: bool,
    resume_deadline: Option<u64>,
) -> Round {
    let done = WorkDone { resume_deadline, ..idle() };
    let mut git = refresh();
    state.handle_scheduled_tasks(100, geometry_dirty, INTERVALS, done, &mut git, &unwatched())
}

#[test]
fn scheduled_tasks_do_not_start_pending_agent_resume_when_geometry_dirty() {
    let mut state = schedule();
    let mut pending_plan = Some("codex");
    let mut runtimes = Vec::new();
    state.pending_agent_resume_deadline = Some(99);

    let round = resume_round(&mut state, true, Some(99));
    let resumed = match round.resume {
        Some(_) => {
            runtimes.extend(pending_plan.take());
            true
        }
        None => false,
    };
    assert!(!round.changed_after_resumes(resumed));
    assert!(runtimes.is_empty());
    assert!(pending_plan.is_some());
    assert!(state.pending_agent_resume_deadline.is_none());
}

#[test]
fn settled_geometry_lets_pending_agents_resume() {
    let mut state = schedule();
    let round = resume_round(&mut state, false, Some(100));
    assert_eq!(round.resume, Some(true));
    assert_eq!(state.pending_agent_resume_deadline, Some(100));
    assert!(!round.changed && round.changed_after_resumes(true));
    assert!(!round.changed_after_resumes(false));

    let round = resume_round(&mut state, false, Some(101));
    assert_eq!(round.resume, Some(false));
    let round = resume_round(&mut state, false, None);
    assert_eq!(round.resume, Some(false));
    assert!(round.changed_after_resumes(true), "a resume counts whether or not its time is up");

    let round = resume_round(&mut state, true, Some(100));
    assert_eq!(round.resume, None);
    assert!(!round.changed_after_resumes(true));

    state.next_resize_poll = 100;
    let done = WorkDone {
        terminal_size: Some((80, 24)),
        resume_deadline: Some(100),
        ..idle()
    };
    let mut git = refresh();
    let round = state.handle_scheduled_tasks(100, false, INTERVALS, done, &mut git, &unwatched());
    assert!(round.changed);
    assert_eq!(round.resume, None, "the terminal was resized");
}

#[test]
fn a_delivered_notification_replaces_a_toast_that_went() {
    let mut state = schedule();
    state.toast = Some("old".into());
    state.toast_deadline = Some(100);
    state.notification_deadline = Some(100);
    let done = WorkDone {
        notified: true,
        next_notification: Some(400),
        toast: Some("agent done".into()),
        toast_deadline: Some(300),
        ..idle()
    };
    let (changed, _) = round(&mut state, 100, false, done);
    assert!(changed);
    assert_eq!(state.toast.as_deref(), Some("agent done"));
    assert_eq!(state.toast_deadline, Some(300));
    assert_eq!(state.notification_deadline, Some(400));
}

#[test]
fn a_round_starts_the_refresh_that_is_due() {
    let mut state = schedule();
    let mut git = refresh();
    let repositories = Repositories {
        workspaces: vec![git_workspace("w", Some("/w"), "/w", "/w")],
        demand: ALL,
        intervals: EVERY,
    };
    let round =
        state.handle_scheduled_tasks(105, false, INTERVALS, idle(), &mut git, &repositories);
    assert!(!round.changed);
    assert_eq!(round.refresh.unwrap().items.len(), 1);
    assert!(git.in_flight);
}

#[test]
fn updates_are_looked_for_only_where_switched_on() {
    let mut state = schedule();
    assert!(state.run_auto_update_check(10, INTERVALS));
    assert_eq!(state.next_auto_update_check, Some(1_010));
    state.updates.update_available = true;
    assert!(!state.run_auto_update_check(10, INTERVALS));
    assert_eq!(state.next_auto_update_check, None);
    assert!(state.run_agent_manifest_update_check(10, INTERVALS));
    state.updates.no_session = true;
    assert!(!state.run_agent_manifest_update_check(10, INTERVALS));
    assert_eq!(state.next_agent_manifest_update_check, None);
}

#[test]
fn only_a_size_that_differs_is_a_resize() {
    let mut state = schedule();
    assert!(!state.handle_resize_poll(None));
    assert!(state.handle_resize_poll(Some((80, 24))));
    assert!(!state.handle_resize_poll(Some((80, 24))));
    assert!(!state.handle_resize_poll(None));
    assert!(state.handle_resize_poll(Some((80, 25))));
    assert!(!state.expire_due_metadata(1, None));
    assert!(!state.reconcile_due_managed_agents(1, true, None));
}

// --- input -----------------------------------------------------------------------------------

fn input() -> InputState {
    InputState {
        mouse_capture: false,
        popup_open: false,
        mouse_motion_changes_view: false,
        redraw_on_focus_gained: true,
        outer_terminal_focus: None,
    }
}

#[test]
fn events_are_routed_by_kind() {
    let mut state = input();
    let moved = RawInput::Mouse { moved: true };
    assert_eq!(state.handle_raw_input_event(moved), InputAction::PaneMouse);
    assert!(!state.raw_input_changes_view(moved, true));
    assert!(state.raw_input_changes_view(RawInput::Mouse { moved: false }, false));
    state.mouse_motion_changes_view = true;
    assert!(state.raw_input_changes_view(moved, false));
    state.popup_open = true;
    assert_eq!(state.handle_raw_input_event(moved), InputAction::Mouse);
    assert_eq!(
        state.handle_raw_input_event(RawInput::OuterFocusGained),
        InputAction::FocusGained { repaint: true }
    );
    assert_eq!(state.outer_terminal_focus, Some(true));
    assert_eq!(state.handle_raw_input_event(RawInput::OuterFocusLost), InputAction::FocusLost);
    assert_eq!(state.outer_terminal_focus, Some(false));
    for (event, action, changes) in [
        (RawInput::Key(KeyKind::Press), InputAction::PressKey, true),
        (RawInput::Key(KeyKind::Release), InputAction::ReleaseKey, false),
        (RawInput::Text, InputAction::CommitText, true),
        (RawInput::Paste, InputAction::Paste, true),
        (RawInput::HostCellSizeReport, InputAction::Nothing, false),
        (RawInput::Unsupported, InputAction::Nothing, false),
    ] {
        assert_eq!(state.handle_raw_input_event(event), action);
        assert_eq!(state.raw_input_changes_view(event, !changes), changes);
    }
    for event in [
        RawInput::Key(KeyKind::Repeat),
        RawInput::HostDefaultColor,
        RawInput::HostPaletteColors,
        RawInput::HostColorSchemeChanged,
    ] {
        assert!(state.raw_input_changes_view(event, true));
        assert!(!state.raw_input_changes_view(event, false));
    }
}

#[test]
fn forwarded_repeats_go_to_their_terminal() {
    let (mut run, step) = RepeatRun::start(RepeatPlan::Forwarded("t".into()));
    assert!(matches!(step, RepeatStep::Forward(t) if t == "t"));
    let (step, lease) = run.advance(RepeatEvent::Forwarded(false));
    assert!(matches!(step, RepeatStep::Done { discard: Some(t), changed: true } if t == "t"));
    assert!(lease.is_none());
    let (mut run, _) = RepeatRun::start(RepeatPlan::Forwarded("t".into()));
    let (step, _) = run.advance(RepeatEvent::Forwarded(true));
    assert!(matches!(step, RepeatStep::Done { discard: None, changed: true }));
    let (_, step) = RepeatRun::start(RepeatPlan::Ignore);
    assert!(matches!(step, RepeatStep::Done { discard: None, changed: false }));
}

#[test]
fn reprocessed_repeats_stay_with_the_terminal_they_land_in() {
    let (mut run, step) =
        RepeatRun::start(RepeatPlan::Reprocess { repetitions: 3, sticky: true });
    assert!(matches!(step, RepeatStep::CheckContext));
    let (step, _) = run.advance(RepeatEvent::ContextChecked(true));
    assert!(matches!(step, RepeatStep::HandleKey));
    let (step, lease) = run.advance(RepeatEvent::KeyHandled(Some("t".into())));
    assert!(matches!(step, RepeatStep::Forward(t) if t == "t"));
    assert_eq!(lease.as_deref(), Some("t"));
    let (step, _) = run.advance(RepeatEvent::Forwarded(true));
    assert!(matches!(step, RepeatStep::Forward(_)));
    let (step, _) = run.advance(RepeatEvent::Forwarded(true));
    assert!(matches!(step, RepeatStep::Done { discard: None, changed: true }));
    assert_eq!(run.left, 0);

    let (mut run, _) = RepeatRun::start(RepeatPlan::Reprocess { repetitions: 2, sticky: false });
    run.advance(RepeatEvent::ContextChecked(true));
    let (step, lease) = run.advance(RepeatEvent::KeyHandled(Some("t".into())));
    assert!(matches!(step, RepeatStep::CheckContext));
    assert!(lease.is_none());
    let (step, _) = run.advance(RepeatEvent::ContextChecked(false));
    assert!(matches!(step, RepeatStep::Done { discard: None, changed: true }));
    let (_, step) = RepeatRun::start(RepeatPlan::Reprocess { repetitions: 0, sticky: true });
    assert!(matches!(step, RepeatStep::Done { discard: None, changed: true }));
}
