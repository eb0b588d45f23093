//! The event loop: when it wakes, what is due, what a round leaves, and where input goes.

use vstd::prelude::*;
use crate::geometry::Rect;
use crate::input::{
    action_for, after_event, event_changes, first_step, input_taken, lease_after, run_of,
    step_after, InputAction, InputState, KeyKind, RawInput, RepeatEvent, RepeatPlan, RepeatRun,
    RepeatStep,
};
use crate::runtime::{
    agents_reconciled, due_metadata_expired, earlier, earliest, elapsed, kept_children,
    law_earliest_is_the_least, manifest_check_run, size_polled, update_check_run,
    AutoscrollDirection, AutoscrollStep, Intervals, Round, Schedule, SelectionPhase, WaitOutcome,
    WorkDone,
};
use crate::session::ScrollMetrics;

verus! {

// ---------------------------------------------------------------------------------------------
// Waking
// ---------------------------------------------------------------------------------------------

/// `wake` is no later than `time`, where there is one.
pub open spec fn wakes_for(wake: Option<u64>, time: Option<u64>) -> bool {
    time matches Some(t) ==> (wake matches Some(d) && d <= t)
}

/// The loop wakes no later than anything that is scheduled: whatever has a time, the loop is awake
/// by then, the poll of the terminal's size and the refresh of repositories where they count, and a
/// wanted render as soon as it may come.
pub proof fn law_the_loop_wakes_in_time(
    state: Schedule,
    now: u64,
    needs_render: bool,
    polls_size: bool,
    git_refresh: Option<u64>,
    min_render: u64,
)
    requires
        state.last_render_at matches Some(t) ==> t + min_render <= u64::MAX,
    ensures
        ({
            let wake = earliest(
                state.deadlines(now, needs_render, polls_size, git_refresh, min_render),
            );
            &&& polls_size ==> wakes_for(wake, Some(state.next_resize_poll))
            &&& wakes_for(wake, state.config_diagnostic_deadline)
            &&& wakes_for(wake, state.toast_deadline)
            &&& wakes_for(wake, state.notification_deadline)
            &&& wakes_for(wake, state.managed_agent_deadline)
            &&& wakes_for(wake, state.copy_feedback_deadline)
            &&& wakes_for(wake, git_refresh)
            &&& wakes_for(wake, state.next_auto_update_check)
            &&& wakes_for(wake, state.next_agent_manifest_update_check)
            &&& wakes_for(wake, state.agent_metadata_deadline)
            &&& wakes_for(wake, state.pending_agent_resume_deadline)
            &&& wakes_for(wake, state.session_save_deadline)
            &&& wakes_for(wake, state.selection_autoscroll_deadline)
            &&& wakes_for(wake, state.selection_highlight_clear_deadline)
            &&& needs_render ==> (state.last_render_at matches Some(t) ==> (t + min_render > now
                ==> wakes_for(wake, Some((t + min_render) as u64))))
        }),
{
    let times = state.deadlines(now, needs_render, polls_size, git_refresh, min_render);
    law_earliest_is_the_least(times);
    assert(polls_size ==> times.contains(Some(state.next_resize_poll))) by {
        assert(polls_size ==> times[0] == Some(state.next_resize_poll));
    }
    assert(times.contains(state.config_diagnostic_deadline)) by {
        assert(times[1] == state.config_diagnostic_deadline);
    }
    assert(times.contains(state.toast_deadline)) by {
        assert(times[2] == state.toast_deadline);
    }
    assert(times.contains(state.notification_deadline)) by {
        assert(times[3] == state.notification_deadline);
    }
    assert(times.contains(state.managed_agent_deadline)) by {
        assert(times[4] == state.managed_agent_deadline);
    }
    assert(times.contains(state.copy_feedback_deadline)) by {
        assert(times[5] == state.copy_feedback_deadline);
    }
    assert(times.contains(git_refresh)) by {
        assert(times[6] == git_refresh);
    }
    assert(times.contains(state.next_auto_update_check)) by {
        assert(times[7] == state.next_auto_update_check);
    }
    assert(times.contains(state.next_agent_manifest_update_check)) by {
        assert(times[8] == state.next_agent_manifest_update_check);
    }
    assert(times.contains(state.agent_metadata_deadline)) by {
        assert(times[9] == state.agent_metadata_deadline);
    }
    assert(times.contains(state.pending_agent_resume_deadline)) by {
        assert(times[10] == state.pending_agent_resume_deadline);
    }
    assert(times.contains(state.session_save_deadline)) by {
        assert(times[11] == state.session_save_deadline);
    }
    assert(times.contains(state.selection_autoscroll_deadline)) by {
        assert(times[12] == state.selection_autoscroll_deadline);
    }
    assert(times.contains(state.selection_highlight_clear_deadline)) by {
        assert(times[13] == state.selection_highlight_clear_deadline);
    }
    let render = state.render_deadline(now, needs_render, min_render);
    assert(times.contains(render)) by {
        assert(times[14] == render);
    }
}

/// The loop wakes for nothing else: the time it wakes at is that of something that is scheduled,
/// and a poll, a refresh or a render that does not count wakes it for nothing.
pub proof fn law_the_loop_wakes_for_a_reason(
    state: Schedule,
    now: u64,
    needs_render: bool,
    polls_size: bool,
    git_refresh: Option<u64>,
    min_render: u64,
)
    requires
        state.last_render_at matches Some(t) ==> t + min_render <= u64::MAX,
    ensures
        ({
            let wake = earliest(
                state.deadlines(now, needs_render, polls_size, git_refresh, min_render),
            );
            wake is Some ==> {
                ||| polls_size && wake == Some(state.next_resize_poll)
                ||| wake == state.config_diagnostic_deadline
                ||| wake == state.toast_deadline
                ||| wake == state.notification_deadline
                ||| wake == state.managed_agent_deadline
                ||| wake == state.copy_feedback_deadline
                ||| wake == git_refresh
                ||| wake == state.next_auto_update_check
                ||| wake == state.next_agent_manifest_update_check
                ||| wake == state.agent_metadata_deadline
                ||| wake == state.pending_agent_resume_deadline
                ||| wake == state.session_save_deadline
                ||| wake == state.selection_autoscroll_deadline
                ||| wake == state.selection_highlight_clear_deadline
                ||| needs_render && (state.last_render_at matches Some(t) && wake == Some(
                    (t + min_render) as u64,
                ) && t + min_render > now)
            }
        }),
{
    let times = state.deadlines(now, needs_render, polls_size, git_refresh, min_render);
    law_earliest_is_the_least(times);
    let wake = earliest(times);
    if wake is Some {
        let k = choose|k: int| 0 <= k < times.len() && times[k] == wake;
        assert(times.len() == 15);
        assert(times[k] == wake);
    }
}

// ---------------------------------------------------------------------------------------------
// Rounds
// ---------------------------------------------------------------------------------------------

/// The time has come.
pub open spec fn come(time: Option<u64>, now: u64) -> bool {
    time matches Some(t) && t <= now
}

/// Work is due exactly when its time has come; looking for updates and for manifests also only in
/// a session, where switched on, and for updates only until one was found.
pub proof fn law_work_is_due_in_its_time(state: Schedule, now: u64)
    ensures
        ({
            let due = state.spec_due_work(now);
            &&& due.read_terminal_size <==> state.next_resize_poll <= now
            &&& due.drain_notifications <==> come(state.notification_deadline, now)
            &&& due.save_session <==> come(state.session_save_deadline, now)
            &&& due.expire_metadata <==> come(state.agent_metadata_deadline, now)
            &&& due.reconcile_agents <==> come(state.managed_agent_deadline, now)
            &&& due.check_for_update <==> come(state.next_auto_update_check, now)
                && !state.updates.no_session && state.updates.version_check
                && !state.updates.update_available
            &&& due.check_for_manifests <==> come(state.next_agent_manifest_update_check, now)
                && !state.updates.no_session && state.updates.manifest_check
        }),
{
}

/// What a round makes of a message that is shown for a while: gone when its time has come.
pub open spec fn shown_until(
    before: (Option<String>, Option<u64>),
    after: (Option<String>, Option<u64>),
    now: u64,
) -> bool {
    &&& come(before.1, now) ==> after == (None::<String>, None::<u64>)
    &&& !come(before.1, now) ==> after == before
}

/// A round lets messages go whose time has come and keeps the others; a delivered notification
/// puts its toast in place, and the next is awaited.
pub proof fn law_a_round_lets_messages_go(
    state: Schedule,
    now: u64,
    geometry_dirty: bool,
    intervals: Intervals,
    done: WorkDone,
)
    ensures
        ({
            let after = state.after_round(now, geometry_dirty, intervals, done);
            let delivered = come(state.notification_deadline, now) && done.notified;
            &&& shown_until(
                (state.config_diagnostic, state.config_diagnostic_deadline),
                (after.config_diagnostic, after.config_diagnostic_deadline),
                now,
            )
            &&& shown_until(
                (state.copy_feedback, state.copy_feedback_deadline),
                (after.copy_feedback, after.copy_feedback_deadline),
                now,
            )
            &&& !delivered ==> shown_until(
                (state.toast, state.toast_deadline),
                (after.toast, after.toast_deadline),
                now,
            )
            &&& delivered ==> after.toast == done.toast && after.toast_deadline
                == done.toast_deadline
            &&& come(state.notification_deadline, now) ==> after.notification_deadline
                == done.next_notification
            &&& !come(state.notification_deadline, now) ==> after.notification_deadline
                == state.notification_deadline
        }),
{
}

/// A round puts off what it did, by its interval or to when it is next due, and leaves alone what
/// was not due. Checks that are switched off are not put off but over.
pub proof fn law_a_round_puts_off_what_it_did(
    state: Schedule,
    now: u64,
    geometry_dirty: bool,
    intervals: Intervals,
    done: WorkDone,
)
    requires
        now + intervals.resize_poll <= u64::MAX,
        now + intervals.update_check <= u64::MAX,
    ensures
        ({
            let after = state.after_round(now, geometry_dirty, intervals, done);
            let may_update = !state.updates.no_session && state.updates.version_check
                && !state.updates.update_available;
            let may_look = !state.updates.no_session && state.updates.manifest_check;
            &&& state.next_resize_poll <= now ==> after.next_resize_poll == now
                + intervals.resize_poll
            &&& state.next_resize_poll > now ==> after.next_resize_poll == state.next_resize_poll
            &&& come(state.next_auto_update_check, now) && may_update
                ==> after.next_auto_update_check == Some((now + intervals.update_check) as u64)
            &&& come(state.next_auto_update_check, now) && !may_update
                ==> after.next_auto_update_check is None
            &&& !come(state.next_auto_update_check, now) ==> after.next_auto_update_check
                == state.next_auto_update_check
            &&& come(state.next_agent_manifest_update_check, now) && may_look
                ==> after.next_agent_manifest_update_check == Some(
                (now + intervals.update_check) as u64,
            )
            &&& come(state.next_agent_manifest_update_check, now) && !may_look
                ==> after.next_agent_manifest_update_check is None
            &&& !come(state.next_agent_manifest_update_check, now)
                ==> after.next_agent_manifest_update_check == state.next_agent_manifest_update_check
            &&& come(state.session_save_deadline, now) ==> after.session_save_deadline
                == done.next_session_save
            &&& !come(state.session_save_deadline, now) ==> after.session_save_deadline
                == state.session_save_deadline
            &&& come(state.agent_metadata_deadline, now) ==> after.agent_metadata_deadline
                == done.next_metadata_expiry
            &&& !come(state.agent_metadata_deadline, now) ==> after.agent_metadata_deadline
                == state.agent_metadata_deadline
            &&& come(state.managed_agent_deadline, now) ==> after.managed_agent_deadline
                == done.next_managed_agent
            &&& !come(state.managed_agent_deadline, now) ==> after.managed_agent_deadline
                == state.managed_agent_deadline
            &&& after.last_render_at == state.last_render_at
            &&& after.last_presentation_at == state.last_presentation_at
            &&& after.updates == state.updates
        }),
{
}

/// A size that was read is remembered, when it was to be read; one that differs is a change, and
/// one that could not be read is none.
pub proof fn law_sizes_are_remembered(
    state: Schedule,
    now: u64,
    geometry_dirty: bool,
    intervals: Intervals,
    done: WorkDone,
)
    ensures
        ({
            let after = state.after_round(now, geometry_dirty, intervals, done);
            let read = state.next_resize_poll <= now && done.terminal_size is Some;
            &&& read ==> after.last_terminal_size == done.terminal_size
            &&& !read ==> after.last_terminal_size == state.last_terminal_size
            &&& state.resized(now, done) <==> after.last_terminal_size != state.last_terminal_size
        }),
{
}

/// A selection that is highlighted for a while goes when its time has come, but not while it is
/// still being made.
pub proof fn law_highlights_go_when_done(
    state: Schedule,
    now: u64,
    geometry_dirty: bool,
    intervals: Intervals,
    done: WorkDone,
)
    ensures
        ({
            let after = state.after_round(now, geometry_dirty, intervals, done);
            let over = come(state.selection_highlight_clear_deadline, now);
            let made = state.selection matches Some(s) && s.phase == SelectionPhase::Done;
            &&& over && made ==> after.selection is None
            &&& !(over && made) ==> after.selection == state.selection
            &&& over ==> after.selection_highlight_clear_deadline is None
            &&& !over ==> after.selection_highlight_clear_deadline
                == state.selection_highlight_clear_deadline
        }),
{
}

/// A round shows on screen exactly when something that is shown changed: the size, a message, a
/// notification, the selection, or an agent.
pub proof fn law_a_round_shows_when_something_changed(state: Schedule, now: u64, done: WorkDone)
    ensures
        state.round_changes(now, done) <==> {
            ||| state.next_resize_poll <= now && done.terminal_size is Some && done.terminal_size
                != state.last_terminal_size
            ||| come(state.config_diagnostic_deadline, now)
            ||| come(state.toast_deadline, now)
            ||| come(state.notification_deadline, now) && done.notified
            ||| come(state.copy_feedback_deadline, now)
            ||| come(state.selection_autoscroll_deadline, now)
            ||| come(state.selection_highlight_clear_deadline, now) && (
            state.selection matches Some(s) && s.phase == SelectionPhase::Done)
            ||| come(state.agent_metadata_deadline, now)
            ||| come(state.managed_agent_deadline, now) && done.reconciled
        },
{
}

/// A tick of autoscroll scrolls the selection's own pane, the way it is dragged, to where the mouse
/// was last; and it does so exactly while the selection is being dragged, its pane is where it was,
/// and there is more to scroll to that way.
pub proof fn law_autoscroll_follows_the_drag(
    state: Schedule,
    rect: Option<Rect>,
    metrics: Option<ScrollMetrics>,
)
    ensures
        ({
            let step = state.autoscroll_step(rect, metrics);
            let goes = state.selection_autoscroll matches Some(auto) && state.selection matches Some(s)
                && metrics matches Some(m) && s.phase == SelectionPhase::Dragging && rect == Some(
                auto.inner_rect,
            ) && (auto.direction == AutoscrollDirection::Up ==> m.offset_from_bottom
                < m.max_offset_from_bottom) && (auto.direction == AutoscrollDirection::Down
                ==> m.offset_from_bottom > 0);
            &&& step is Scroll <==> goes
            &&& step matches AutoscrollStep::Scroll { pane, direction, col, row } ==> (
            state.selection matches Some(s) && state.selection_autoscroll matches Some(auto)
                && s.pane == pane && auto.direction == direction && auto.last_mouse_col == col && auto.last_mouse_row
                == row)
        }),
{
}

/// While autoscroll goes on it ticks again after its interval and keeps what it follows; when it
/// cannot go on it is over.
pub proof fn law_autoscroll_goes_on_or_ends(
    state: Schedule,
    rect: Option<Rect>,
    metrics: Option<ScrollMetrics>,
    now: u64,
    interval: u64,
)
    requires
        now + interval <= u64::MAX,
    ensures
        ({
            let step = state.autoscroll_step(rect, metrics);
            let after = state.after_autoscroll(step, now, interval);
            &&& step is Scroll ==> after.selection_autoscroll_deadline == Some(
                (now + interval) as u64,
            ) && after.selection_autoscroll == state.selection_autoscroll
            &&& step is Nothing ==> after.selection_autoscroll_deadline is None
                && after.selection_autoscroll is None
            &&& after.selection == state.selection
        }),
{
}

/// A render may come once the interval since the last attempt has passed, a presentation once that
/// since the last presentation has; the first of either at once.
pub proof fn law_renders_keep_their_interval(state: Schedule, now: u64, intervals: Intervals)
    ensures
        state.last_render_at is None ==> state.may_render(now, intervals),
        state.last_presentation_at is None ==> state.may_present(now, intervals),
        state.last_render_at matches Some(t) ==> (t <= now ==> (state.may_render(now, intervals)
            <==> t + intervals.min_render <= now)),
        state.last_presentation_at matches Some(t) ==> (t <= now ==> (state.may_present(
            now,
            intervals,
        ) <==> t + intervals.min_render <= now)),
{
}

/// A child is waited for again exactly when it runs, or the wait was interrupted.
pub proof fn law_children_are_kept_while_they_run(
    children: Seq<u64>,
    outcomes: Seq<WaitOutcome>,
    child: u64,
    outcome: WaitOutcome,
)
    requires
        children.len() == outcomes.len(),
    ensures
        ({
            let before = kept_children(children, outcomes);
            let after = kept_children(children.push(child), outcomes.push(outcome));
            &&& outcome == WaitOutcome::Running || outcome == WaitOutcome::Interrupted ==> after
                == before.push(child)
            &&& outcome == WaitOutcome::Exited || outcome == WaitOutcome::Failed ==> after == before
        }),
        kept_children(Seq::empty(), Seq::empty()).len() == 0,
{
    assert(children.push(child).drop_last() =~= children);
    assert(outcomes.push(outcome).drop_last() =~= outcomes);
}

// ---------------------------------------------------------------------------------------------
// Input
// ---------------------------------------------------------------------------------------------

/// Every event is acted on in its own way. The mouse is the interface's while it is captured or a
/// popup is open, and the pane's otherwise; coming back into focus repaints only where that is set.
pub proof fn law_events_are_acted_on(state: InputState, event: RawInput)
    ensures
        event matches RawInput::Key(kind) ==> action_for(state, event) == match kind {
            KeyKind::Press => InputAction::PressKey,
            KeyKind::Repeat => InputAction::RepeatKey,
            KeyKind::Release => InputAction::ReleaseKey,
        },
        event is Text ==> action_for(state, event) == InputAction::CommitText,
        event is Paste ==> action_for(state, event) == InputAction::Paste,
        event is Mouse && !state.mouse_capture && !state.popup_open ==> action_for(state, event)
            == InputAction::PaneMouse,
        event is Mouse && (state.mouse_capture || state.popup_open) ==> action_for(state, event)
            == InputAction::Mouse,
        event is OuterFocusGained ==> (action_for(state, event) matches InputAction::FocusGained {
            repaint,
        } && repaint == state.redraw_on_focus_gained),
        event is OuterFocusLost ==> action_for(state, event) == InputAction::FocusLost,
        event is HostDefaultColor ==> action_for(state, event) == InputAction::UpdateDefaultColor,
        event is HostPaletteColors ==> action_for(state, event) == InputAction::UpdatePalette,
        event is HostColorSchemeChanged ==> action_for(state, event)
            == InputAction::ChangeColorScheme,
        event is HostCellSizeReport || event is Unsupported ==> action_for(state, event)
            == InputAction::Nothing,
{
}

/// Pressing a key, committing and pasting text and coming into focus always show; releasing a key,
/// losing focus and what is not understood never do. Moving the mouse shows only in a mode that
/// shows where it is; everything else it does, shows. The rest shows where acting on it did.
pub proof fn law_events_show_when_they_should(state: InputState, event: RawInput, done: bool)
    ensures
        event == RawInput::Key(KeyKind::Press) || event is Text || event is Paste
            || event is OuterFocusGained ==> event_changes(state, event, done),
        event == RawInput::Key(KeyKind::Release) || event is OuterFocusLost
            || event is HostCellSizeReport || event is Unsupported ==> !event_changes(
            state,
            event,
            done,
        ),
        event matches RawInput::Mouse { moved } ==> (event_changes(state, event, done) <==> !moved
            || state.mouse_motion_changes_view),
        event == RawInput::Key(KeyKind::Repeat) || event is HostDefaultColor
            || event is HostPaletteColors || event is HostColorSchemeChanged ==> (event_changes(
            state,
            event,
            done,
        ) <==> done),
{
}

/// A key that is held in a terminal is sent there once; one that is to be handled again is looked
/// at first; and where there is nothing to repeat, nothing is done and nothing shows.
pub proof fn law_repeats_begin_as_planned(plan: RepeatPlan)
    ensures
        plan matches RepeatPlan::Forwarded(target) ==> first_step(plan) == RepeatStep::Forward(
            target,
        ) && run_of(plan).left == 1,
        plan matches RepeatPlan::Reprocess { repetitions, sticky } ==> {
            &&& run_of(plan).left == repetitions
            &&& run_of(plan).sticky == sticky
            &&& run_of(plan).target is None
            &&& repetitions > 0 ==> first_step(plan) == RepeatStep::CheckContext
            &&& repetitions == 0 ==> (first_step(plan) matches RepeatStep::Done { discard, changed }
                && discard is None && changed)
        },
        plan is Ignore ==> (first_step(plan) matches RepeatStep::Done { discard, changed }
            && discard is None && !changed),
{
}

/// A terminal that does not take the key loses its lease, and the repeats are over. A context that
/// no longer allows the key ends them and takes no lease away. A key that is allowed is handled;
/// where it lands in a terminal and is sticky, a lease is taken out there and the rest of the
/// repeats goes there.
pub proof fn law_repeats_go_on_by_what_came_of_them(run: RepeatRun, event: RepeatEvent)
    requires
        run.left > 0,
    ensures
        event == RepeatEvent::Forwarded(false) ==> (step_after(run, event) matches RepeatStep::Done {
            discard,
            changed,
        } && discard == run.target && changed),
        event == RepeatEvent::ContextChecked(false) ==> (step_after(run, event) matches RepeatStep::Done {
            discard,
            changed,
        } && discard is None && changed),
        event == RepeatEvent::ContextChecked(true) ==> step_after(run, event)
            == RepeatStep::HandleKey && after_event(run, event) == run,
        event == RepeatEvent::Forwarded(true) ==> after_event(run, event).left == run.left - 1
            && after_event(run, event).target == run.target,
        event == RepeatEvent::Forwarded(true) && run.left > 1 ==> (run.target matches Some(t)
            ==> step_after(run, event) == RepeatStep::Forward(t)),
        event matches RepeatEvent::KeyHandled(landed) ==> {
            &&& after_event(run, event).left == run.left - 1
            &&& run.sticky ==> lease_after(run, event) == landed && after_event(run, event).target
                == landed
            &&& !run.sticky ==> lease_after(run, event) is None && after_event(
                run,
                event,
            ).target is None
            &&& run.left > 1 && run.sticky ==> (landed matches Some(t) ==> step_after(run, event)
                == RepeatStep::Forward(t))
            &&& run.left > 1 && (!run.sticky || landed is None) ==> step_after(run, event)
                == RepeatStep::CheckContext
        },
        !(event is KeyHandled) ==> lease_after(run, event) is None,
        (event == RepeatEvent::Forwarded(true) || event is KeyHandled) && run.left == 1 ==> (
        step_after(run, event) matches RepeatStep::Done { discard, changed } && discard is None
            && changed),
        after_event(run, event).sticky == run.sticky,
{
}

/// Without a terminal of its own the loop wakes for everything but a poll of the size, and for the
/// refresh of repositories only where it is asked to.
pub proof fn law_the_headless_loop_wakes_in_time(
    state: Schedule,
    now: u64,
    needs_render: bool,
    with_git: bool,
    git_refresh: Option<u64>,
    min_render: u64,
)
    requires
        state.last_render_at matches Some(t) ==> t + min_render <= u64::MAX,
    ensures
        ({
            let wake = earliest(
                state.headless_deadlines(now, needs_render, with_git, git_refresh, min_render),
            );
            &&& with_git ==> wakes_for(wake, git_refresh)
            &&& wakes_for(wake, state.config_diagnostic_deadline)
            &&& wakes_for(wake, state.toast_deadline)
            &&& wakes_for(wake, state.notification_deadline)
            &&& wakes_for(wake, state.managed_agent_deadline)
            &&& wakes_for(wake, state.copy_feedback_deadline)
            &&& wakes_for(wake, state.next_auto_update_check)
            &&& wakes_for(wake, state.next_agent_manifest_update_check)
            &&& wakes_for(wake, state.agent_metadata_deadline)
            &&& wakes_for(wake, state.pending_agent_resume_deadline)
            &&& wakes_for(wake, state.session_save_deadline)
            &&& wakes_for(wake, state.selection_autoscroll_deadline)
            &&& wakes_for(wake, state.selection_highlight_clear_deadline)
            &&& needs_render ==> (state.last_render_at matches Some(t) ==> (t + min_render > now
                ==> wakes_for(wake, Some((t + min_render) as u64))))
        }),
        state.headless_deadlines(now, needs_render, false, git_refresh, min_render)
            == state.headless_deadlines(now, needs_render, with_git, None, min_render),
        state.headless_deadlines(now, needs_render, with_git, git_refresh, min_render)
            == state.deadlines(
            now,
            needs_render,
            false,
            if with_git {
                git_refresh
            } else {
                None
            },
            min_render,
        ),
{
    law_the_loop_wakes_in_time(
        state,
        now,
        needs_render,
        false,
        if with_git {
            git_refresh
        } else {
            None
        },
        min_render,
    );
}

/// Agents are resumed once the geometry is settled: not while it is to be worked out again, nor in a
/// round that found another size. It is said whether they have waited long enough.
pub proof fn law_agents_resume_once_the_geometry_is_settled(
    state: Schedule,
    now: u64,
    geometry_dirty: bool,
    done: WorkDone,
)
    ensures
        geometry_dirty || state.resized(now, done) <==> state.resumes(now, geometry_dirty, done)
            is None,
        state.resumes(now, geometry_dirty, done) matches Some(waited) ==> (waited <==> (
        done.resume_deadline matches Some(t) && t <= now)),
{
}

/// A round that changed nothing by itself shows once an agent was resumed that it let resume.
pub proof fn law_resumed_agents_show(round: Round, resumed: bool)
    ensures
        round.changed ==> round.shows_after(resumed),
        !round.changed ==> (round.shows_after(resumed) <==> round.resume is Some && resumed),
{
}

/// A round scrolls a selection when a tick is due, and not before.
pub proof fn law_a_round_scrolls_when_a_tick_is_due(state: Schedule, now: u64, done: WorkDone)
    ensures
        (state.selection_autoscroll_deadline matches Some(t) && t <= now) ==> state.round_scroll(
            now,
            done,
        ) == state.autoscroll_step(done.selection_rect, done.selection_scroll),
        !(state.selection_autoscroll_deadline matches Some(t) && t <= now) ==> state.round_scroll(
            now,
            done,
        ) == AutoscrollStep::Nothing,
{
}

/// An attempt to render is remembered, and a presentation with it where it was one; nothing else.
pub proof fn law_render_attempts_are_remembered(state: Schedule, now: u64, presentation: bool)
    ensures
        state.after_render_attempt(now, presentation).last_render_at == Some(now),
        presentation ==> state.after_render_attempt(now, presentation).last_presentation_at == Some(
            now,
        ),
        !presentation ==> state.after_render_attempt(now, presentation).last_presentation_at
            == state.last_presentation_at,
        state.after_render_attempt(now, presentation) == (Schedule {
            last_render_at: state.after_render_attempt(now, presentation).last_render_at,
            last_presentation_at: state.after_render_attempt(
                now,
                presentation,
            ).last_presentation_at,
            ..state
        }),
{
}

/// A size that was read is remembered, and is a change where it is another; one that could not be read
/// is neither.
pub proof fn law_polled_sizes_are_remembered(
    before: Schedule,
    after: Schedule,
    size: Option<(u16, u16)>,
    changed: bool,
)
    requires
        size_polled(before, after, size, changed),
    ensures
        size is None ==> !changed && after == before,
        size is Some ==> after.last_terminal_size == size && (changed <==> before.last_terminal_size
            != size),
        after == (Schedule { last_terminal_size: after.last_terminal_size, ..before }),
{
}

/// Updates are looked for in a session, where that is switched on and none was found yet; manifests in
/// a session where that is switched on. Then the next check comes an interval later; otherwise there
/// is none.
pub proof fn law_checks_are_made_where_they_are_wanted(
    before: Schedule,
    after: Schedule,
    now: u64,
    intervals: Intervals,
    made: bool,
)
    requires
        now + intervals.update_check <= u64::MAX,
    ensures
        update_check_run(before, after, now, intervals, made) ==> {
            &&& made <==> !before.updates.no_session && before.updates.version_check
                && !before.updates.update_available
            &&& made ==> (after.next_auto_update_check matches Some(t) && t == now
                + intervals.update_check)
            &&& !made ==> after.next_auto_update_check is None
            &&& after == (Schedule { next_auto_update_check: after.next_auto_update_check, ..before })
        },
        manifest_check_run(before, after, now, intervals, made) ==> {
            &&& made <==> !before.updates.no_session && before.updates.manifest_check
            &&& made ==> (after.next_agent_manifest_update_check matches Some(t) && t == now
                + intervals.update_check)
            &&& !made ==> after.next_agent_manifest_update_check is None
            &&& after == (Schedule {
                next_agent_manifest_update_check: after.next_agent_manifest_update_check,
                ..before
            })
        },
{
}

/// Agents are reconciled, and metadata expires, when their time has come; then the next time takes its
/// place. Before that nothing changes.
pub proof fn law_due_work_is_done_when_due(
    before: Schedule,
    after: Schedule,
    now: u64,
    reconciled: bool,
    next: Option<u64>,
    changed: bool,
)
    ensures
        agents_reconciled(before, after, now, reconciled, next, changed) ==> {
            let due = before.managed_agent_deadline matches Some(t) && t <= now;
            &&& changed <==> due && reconciled
            &&& due ==> after == (Schedule { managed_agent_deadline: next, ..before })
            &&& !due ==> after == before
        },
        due_metadata_expired(before, after, now, next, changed) ==> {
            let due = before.agent_metadata_deadline matches Some(t) && t <= now;
            &&& changed <==> due
            &&& due ==> after == (Schedule { agent_metadata_deadline: next, ..before })
            &&& !due ==> after == before
        },
{
}

/// The focus of the outer terminal is remembered as it comes and goes; no other event changes what is
/// known of it, and none anything else.
pub proof fn law_outer_focus_is_remembered(
    before: InputState,
    after: InputState,
    event: RawInput,
    action: InputAction,
)
    requires
        input_taken(before, after, event, action),
    ensures
        action == action_for(before, event),
        event is OuterFocusGained ==> after.outer_terminal_focus == Some(true),
        event is OuterFocusLost ==> after.outer_terminal_focus == Some(false),
        !(event is OuterFocusGained) && !(event is OuterFocusLost) ==> after == before,
        after == (InputState { outer_terminal_focus: after.outer_terminal_focus, ..before }),
{
}

/// Time passes from one reading of the clock to a later one, and none passes to an earlier one.
pub proof fn law_time_passes_forward(then: u64, now: u64)
    ensures
        then <= now ==> then + elapsed(then, now) == now,
        now < then ==> elapsed(then, now) == 0,
{
}

/// The earlier of two times is one of them and not after the other; with one of them missing it is the
/// other.
pub proof fn law_the_earlier_of_two_times(a: Option<u64>, b: Option<u64>, times: Seq<Option<u64>>)
    ensures
        earlier(a, None) == a,
        earlier(None, b) == b,
        a is Some && b is Some ==> (earlier(a, b) == a || earlier(a, b) == b) && earlier(a, b) is Some
            && earlier(a, b)->0 <= a->0 && earlier(a, b)->0 <= b->0,
        earliest(Seq::empty()) is None,
        earliest(times.push(b)) == earlier(earliest(times), b),
{
    assert(times.push(b).drop_last() =~= times);
}

/// Nothing is left of a repeat that is ignored; a forwarded one is sent once, to where it is forwarded,
/// and does not stick.
pub proof fn law_repeats_that_are_not_handled_again(plan: RepeatPlan)
    ensures
        plan is Ignore ==> run_of(plan).left == 0 && !run_of(plan).sticky && run_of(plan).target
            is None,
        plan matches RepeatPlan::Forwarded(target) ==> run_of(plan).left == 1 && !run_of(
            plan,
        ).sticky && run_of(plan).target == Some(target),
{
}

} // verus!
