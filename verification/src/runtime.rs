//! What the event loop does when, and when it wakes next.
//!
//! Times are ticks of one monotonic clock.

use vstd::prelude::*;
use vstd::string::*;
use crate::geometry::Rect;
use crate::git_refresh::{GitRefresh, GitWorkspace, RefreshDemand, RefreshIntervals, RefreshWork};
use crate::session::ScrollMetrics;
use crate::text::clone_opt_text;

verus! {

/// How long the loop leaves between one thing and the next of its kind.
#[derive(Clone, Copy, Debug, PartialEq, Eq, Structural)]
pub struct Intervals {
    pub resize_poll: u64,
    pub min_render: u64,
    pub selection_autoscroll: u64,
    pub update_check: u64,
}

#[derive(Clone, Copy, Debug, PartialEq, Eq, Structural)]
pub enum SelectionPhase {
    /// Pressed, not dragged yet.
    Anchored,
    Dragging,
    Done,
}

#[derive(Clone, Copy, Debug, PartialEq, Eq, Structural)]
pub struct Selection {
    pub pane: u64,
    pub phase: SelectionPhase,
}

#[derive(Clone, Copy, Debug, PartialEq, Eq, Structural)]
pub enum AutoscrollDirection {
    Up,
    Down,
}

/// A selection is being dragged past the edge of its pane.
#[derive(Clone, Copy, Debug, PartialEq, Eq, Structural)]
pub struct Autoscroll {
    pub direction: AutoscrollDirection,
    pub last_mouse_col: u16,
    pub last_mouse_row: u16,
    /// The inside of the pane when the drag began.
    pub inner_rect: Rect,
}

/// What a tick of autoscroll asks for.
#[derive(Clone, Copy, Debug, PartialEq, Eq, Structural)]
pub enum AutoscrollStep {
    Nothing,
    /// Scroll the pane by one row and extend the selection to the mouse.
    Scroll { pane: u64, direction: AutoscrollDirection, col: u16, row: u16 },
}

#[derive(Clone, Copy, Debug, PartialEq, Eq, Structural)]
pub struct UpdateSwitches {
    pub no_session: bool,
    pub version_check: bool,
    pub manifest_check: bool,
    /// An update was found and waits to be taken.
    pub update_available: bool,
}

/// What came of a wait for a detached child process.
#[derive(Clone, Copy, Debug, PartialEq, Eq, Structural)]
pub enum WaitOutcome {
    Running,
    Exited,
    Interrupted,
    Failed,
}

#[derive(Debug)]
pub struct Schedule {
    pub next_resize_poll: u64,
    pub last_terminal_size: Option<(u16, u16)>,
    pub config_diagnostic: Option<String>,
    pub config_diagnostic_deadline: Option<u64>,
    pub toast: Option<String>,
    pub toast_deadline: Option<u64>,
    pub copy_feedback: Option<String>,
    pub copy_feedback_deadline: Option<u64>,
    pub notification_deadline: Option<u64>,
    pub managed_agent_deadline: Option<u64>,
    pub selection: Option<Selection>,
    pub selection_autoscroll: Option<Autoscroll>,
    pub selection_autoscroll_deadline: Option<u64>,
    pub selection_highlight_clear_deadline: Option<u64>,
    pub next_auto_update_check: Option<u64>,
    pub next_agent_manifest_update_check: Option<u64>,
    pub agent_metadata_deadline: Option<u64>,
    pub pending_agent_resume_deadline: Option<u64>,
    pub session_save_deadline: Option<u64>,
    pub last_render_at: Option<u64>,
    pub last_presentation_at: Option<u64>,
    pub updates: UpdateSwitches,
}

/// The outside work that is due.
#[derive(Clone, Copy, Debug, PartialEq, Eq, Structural)]
pub struct DueWork {
    pub read_terminal_size: bool,
    pub drain_notifications: bool,
    pub check_for_update: bool,
    pub check_for_manifests: bool,
    pub save_session: bool,
    pub expire_metadata: bool,
    pub reconcile_agents: bool,
}

/// What came of the outside work of one round. Entries of work that was not due are not looked at.
#[derive(Debug)]
pub struct WorkDone {
    /// The size of the terminal, where it could be read.
    pub terminal_size: Option<(u16, u16)>,
    /// Some notification was delivered.
    pub notified: bool,
    /// When the next notification is due.
    pub next_notification: Option<u64>,
    /// The toast that the deliveries left, and when it is due to go.
    pub toast: Option<String>,
    pub toast_deadline: Option<u64>,
    /// The inside of the pane the selection is in, where it is on screen.
    pub selection_rect: Option<Rect>,
    pub selection_scroll: Option<ScrollMetrics>,
    /// When the session is to be saved next, after a save was started.
    pub next_session_save: Option<u64>,
    /// When the next metadata expires.
    pub next_metadata_expiry: Option<u64>,
    /// Some agent's state changed when agents were reconciled.
    pub reconciled: bool,
    pub next_managed_agent: Option<u64>,
    /// When pending agents are to be resumed, as things stand now.
    pub resume_deadline: Option<u64>,
}

/// What a refresh of repositories depends on.
#[derive(Debug)]
pub struct Repositories {
    pub workspaces: Vec<GitWorkspace>,
    pub demand: RefreshDemand,
    pub intervals: RefreshIntervals,
}

/// What a round of scheduled tasks asks for.
#[derive(Debug)]
pub struct Round {
    /// What is on screen is to be drawn again.
    pub changed: bool,
    pub scroll: AutoscrollStep,
    /// The refresh of repositories to start in the background.
    pub refresh: Option<RefreshWork>,
    /// Pending agents may be resumed, their time being up or not. None while the geometry is
    /// unsettled: then no agent is to be resumed.
    pub resume: Option<bool>,
}

impl Round {
    /// What is on screen is to be drawn again, once the resumes that the round asks for were tried.
    pub open spec fn shows_after(&self, resumed: bool) -> bool {
        self.changed || (self.resume is Some && resumed)
    }

    /// Whether what is on screen is to be drawn again, once the resumes that the round asks for
    /// were tried: `resumed` says whether any agent was resumed.
    pub fn changed_after_resumes(&self, resumed: bool) -> (r: bool)
        ensures
            r == self.shows_after(resumed),
    {
        self.changed || (self.resume.is_some() && resumed)
    }
}

pub open spec fn is_due(deadline: Option<u64>, now: u64) -> bool {
    deadline matches Some(t) && now >= t
}

fn due(deadline: Option<u64>, now: u64) -> (r: bool)
    ensures
        r == is_due(deadline, now),
{
    match deadline {
        Some(t) => now >= t,
        None => false,
    }
}

/// Ticks from `then` to `now`; none where the clock reads earlier.
pub open spec fn elapsed(then: u64, now: u64) -> int {
    if now >= then {
        now - then
    } else {
        0
    }
}

/// The earlier of two times.
pub open spec fn earlier(a: Option<u64>, b: Option<u64>) -> Option<u64> {
    match (a, b) {
        (Some(x), Some(y)) => if x <= y {
            Some(x)
        } else {
            Some(y)
        },
        (Some(x), None) => Some(x),
        (None, y) => y,
    }
}

/// The earliest of some times.
pub open spec fn earliest(times: Seq<Option<u64>>) -> Option<u64>
    decreases times.len(),
{
    if times.len() == 0 {
        None
    } else {
        earlier(earliest(times.drop_last()), times.last())
    }
}

/// The earliest time is one of them, and none of them is before it.
pub proof fn law_earliest_is_the_least(times: Seq<Option<u64>>)
    ensures
        match earliest(times) {
            Some(t) => times.contains(Some(t)) && forall|i: int|
                0 <= i < times.len() ==> ((#[trigger] times[i]) matches Some(x) ==> t <= x),
            None => forall|i: int| 0 <= i < times.len() ==> (#[trigger] times[i]) is None,
        },
    decreases times.len(),
{
    if times.len() > 0 {
        let head = times.drop_last();
        law_earliest_is_the_least(head);
        assert(forall|i: int| 0 <= i < head.len() ==> head[i] == #[trigger] times[i]);
        assert(times[times.len() - 1] == times.last());
        match earliest(head) {
            Some(t) => {
                let k = choose|k: int| 0 <= k < head.len() && head[k] == Some(t);
                assert(times[k] == Some(t));
            },
            None => {},
        }
    }
}

/// Whether the process of a child is kept to be waited for again.
pub fn retain_detached_process_after_wait(outcome: WaitOutcome) -> (r: bool)
    ensures
        r == (outcome == WaitOutcome::Running || outcome == WaitOutcome::Interrupted),
{
    match outcome {
        WaitOutcome::Running => true,
        WaitOutcome::Exited => false,
        WaitOutcome::Interrupted => true,
        WaitOutcome::Failed => false,
    }
}

/// The children that are kept: those that run, and those whose wait was interrupted.
pub open spec fn kept_children(children: Seq<u64>, outcomes: Seq<WaitOutcome>) -> Seq<u64>
    decreases children.len(),
{
    if children.len() == 0 || outcomes.len() != children.len() {
        Seq::empty()
    } else {
        let before = kept_children(children.drop_last(), outcomes.drop_last());
        if outcomes.last() == WaitOutcome::Running || outcomes.last() == WaitOutcome::Interrupted {
            before.push(children.last())
        } else {
            before
        }
    }
}

/// Keep the children that are still to be waited for.
pub fn reap_finished_detached_processes(children: &Vec<u64>, outcomes: &Vec<WaitOutcome>) -> (r: Vec<
    u64,
>)
    requires
        children@.len() == outcomes@.len(),
    ensures
        r@ == kept_children(children@, outcomes@),
{
    let mut kept: Vec<u64> = Vec::new();
    let mut i: usize = 0;
    while i < children.len()
        invariant
            i <= children@.len(),
            children@.len() == outcomes@.len(),
            kept@ == kept_children(children@.take(i as int), outcomes@.take(i as int)),
        decreases children@.len() - i,
    {
        proof {
            assert(children@.take(i + 1).drop_last() =~= children@.take(i as int));
            assert(outcomes@.take(i + 1).drop_last() =~= outcomes@.take(i as int));
        }
        if retain_detached_process_after_wait(outcomes[i]) {
            kept.push(children[i]);
        }
        i = i + 1;
    }
    proof {
        assert(children@.take(i as int) =~= children@);
        assert(outcomes@.take(i as int) =~= outcomes@);
    }
    kept
}

impl UpdateSwitches {
    pub open spec fn may_check(&self, switch: bool) -> bool {
        !self.no_session && switch
    }
}

/// `new` is `old` after the terminal's size was asked for, and `r` says that it is another.
pub open spec fn size_polled(
    old: Schedule,
    new: Schedule,
    size: Option<(u16, u16)>,
    r: bool,
) -> bool {
    &&& r == (size is Some && old.last_terminal_size != size)
    &&& new == (Schedule {
        last_terminal_size: if size is Some {
            size
        } else {
            old.last_terminal_size
        },
        ..old
    })
}

/// `new` is `old` after a check for updates was due, and `r` says that it is made.
pub open spec fn update_check_run(
    old: Schedule,
    new: Schedule,
    now: u64,
    intervals: Intervals,
    r: bool,
) -> bool {
    &&& r == (old.updates.may_check(old.updates.version_check) && !old.updates.update_available)
    &&& new == (Schedule {
        next_auto_update_check: if r {
            Some((now + intervals.update_check) as u64)
        } else {
            None
        },
        ..old
    })
}

/// `new` is `old` after a check for agent manifests was due, and `r` says that it is made.
pub open spec fn manifest_check_run(
    old: Schedule,
    new: Schedule,
    now: u64,
    intervals: Intervals,
    r: bool,
) -> bool {
    &&& r == old.updates.may_check(old.updates.manifest_check)
    &&& new == (Schedule {
        next_agent_manifest_update_check: if r {
            Some((now + intervals.update_check) as u64)
        } else {
            None
        },
        ..old
    })
}

/// `new` is `old` after agents were reconciled where that was due.
pub open spec fn agents_reconciled(
    old: Schedule,
    new: Schedule,
    now: u64,
    reconciled: bool,
    next: Option<u64>,
    r: bool,
) -> bool {
    &&& r == (is_due(old.managed_agent_deadline, now) && reconciled)
    &&& new == (Schedule {
        managed_agent_deadline: if is_due(old.managed_agent_deadline, now) {
            next
        } else {
            old.managed_agent_deadline
        },
        ..old
    })
}

/// `new` is `old` after metadata expired where that was due.
pub open spec fn due_metadata_expired(
    old: Schedule,
    new: Schedule,
    now: u64,
    next: Option<u64>,
    r: bool,
) -> bool {
    &&& r == is_due(old.agent_metadata_deadline, now)
    &&& new == (Schedule {
        agent_metadata_deadline: if r {
            next
        } else {
            old.agent_metadata_deadline
        },
        ..old
    })
}

impl Schedule {
    /// The selection that autoscroll scrolls for: one that is being dragged.
    pub open spec fn dragged(&self) -> Option<u64> {
        match self.selection {
            Some(s) => if s.phase == SelectionPhase::Dragging {
                Some(s.pane)
            } else {
                None
            },
            None => None,
        }
    }

    /// What a tick of autoscroll does: it scrolls while the selection is being dragged, its pane
    /// has not moved, and there is something left to scroll to.
    pub open spec fn autoscroll_step(
        &self,
        rect: Option<Rect>,
        metrics: Option<ScrollMetrics>,
    ) -> AutoscrollStep {
        match (self.selection_autoscroll, self.dragged(), metrics) {
            (Some(auto), Some(pane), Some(m)) => {
                let more = match auto.direction {
                    AutoscrollDirection::Up => m.offset_from_bottom < m.max_offset_from_bottom,
                    AutoscrollDirection::Down => m.offset_from_bottom > 0,
                };
                if rect == Some(auto.inner_rect) && more {
                    AutoscrollStep::Scroll {
                        pane,
                        direction: auto.direction,
                        col: auto.last_mouse_col,
                        row: auto.last_mouse_row,
                    }
                } else {
                    AutoscrollStep::Nothing
                }
            },
            _ => AutoscrollStep::Nothing,
        }
    }

    /// The state after a tick of autoscroll: rescheduled where it scrolled, else over.
    pub open spec fn after_autoscroll(&self, step: AutoscrollStep, now: u64, interval: u64) -> Schedule {
        if step is Nothing {
            Schedule { selection_autoscroll: None, selection_autoscroll_deadline: None, ..*self }
        } else {
            Schedule { selection_autoscroll_deadline: Some((now + interval) as u64), ..*self }
        }
    }

    pub fn stop_selection_autoscroll(&mut self)
        ensures
            *final(self) == (Schedule {
                selection_autoscroll: None,
                selection_autoscroll_deadline: None,
                ..*old(self)
            }),
    {
        self.selection_autoscroll = None;
        self.selection_autoscroll_deadline = None;
    }

    /// One tick of autoscroll, given where the selection's pane is and how far it is scrolled.
    pub fn tick_selection_autoscroll(
        &mut self,
        now: u64,
        interval: u64,
        rect: Option<Rect>,
        metrics: Option<ScrollMetrics>,
    ) -> (r: AutoscrollStep)
        requires
            now + interval <= u64::MAX,
        ensures
            r == old(self).autoscroll_step(rect, metrics),
            *final(self) == old(self).after_autoscroll(r, now, interval),
    {
        let auto = match self.selection_autoscroll {
            Some(auto) => auto,
            None => {
                self.selection_autoscroll_deadline = None;
                return AutoscrollStep::Nothing;
            },
        };
        let selection = match self.selection {
            Some(selection) => selection,
            None => {
                self.stop_selection_autoscroll();
                return AutoscrollStep::Nothing;
            },
        };
        if selection.phase != SelectionPhase::Dragging {
            self.stop_selection_autoscroll();
            return AutoscrollStep::Nothing;
        }
        let unmoved = match rect {
            Some(rect) => rect == auto.inner_rect,
            None => false,
        };
        if !unmoved {
            self.stop_selection_autoscroll();
            return AutoscrollStep::Nothing;
        }
        let metrics = match metrics {
            Some(metrics) => metrics,
            None => {
                self.stop_selection_autoscroll();
                return AutoscrollStep::Nothing;
            },
        };
        let more = match auto.direction {
            AutoscrollDirection::Up => metrics.offset_from_bottom < metrics.max_offset_from_bottom,
            AutoscrollDirection::Down => metrics.offset_from_bottom > 0,
        };
        if !more {
            self.stop_selection_autoscroll();
            return AutoscrollStep::Nothing;
        }
        self.selection_autoscroll_deadline = Some(now + interval);
        AutoscrollStep::Scroll {
            pane: selection.pane,
            direction: auto.direction,
            col: auto.last_mouse_col,
            row: auto.last_mouse_row,
        }
    }

    /// Clear the highlight of a copied token when its time is up. A selection that is still being
    /// made stays.
    pub fn clear_due_selection_highlight(&mut self, now: u64) -> (r: bool)
        ensures
            r == old(self).highlight_goes(now),
            *final(self) == old(self).after_highlight(now),
    {
        if !due(self.selection_highlight_clear_deadline, now) {
            return false;
        }
        self.selection_highlight_clear_deadline = None;
        match self.selection {
            Some(selection) => {
                if selection.phase == SelectionPhase::Done {
                    self.selection = None;
                    return true;
                }
            },
            None => {},
        }
        false
    }

    /// Take note of the size of the terminal. Only a size that was read and differs is a change.
    pub fn handle_resize_poll(&mut self, size: Option<(u16, u16)>) -> (r: bool)
        ensures
            size_polled(*old(self), *final(self), size, r),
    {
        match size {
            Some((cols, rows)) => {
                let same = match self.last_terminal_size {
                    Some((c, r)) => c == cols && r == rows,
                    None => false,
                };
                if !same {
                    self.last_terminal_size = Some((cols, rows));
                    return true;
                }
                false
            },
            None => false,
        }
    }

    pub open spec fn may_render(&self, now: u64, intervals: Intervals) -> bool {
        self.last_render_at matches Some(t) ==> elapsed(t, now) >= intervals.min_render
    }

    pub open spec fn may_present(&self, now: u64, intervals: Intervals) -> bool {
        self.last_presentation_at matches Some(t) ==> elapsed(t, now) >= intervals.min_render
    }

    /// The state after an attempt to render, which may have presented something.
    pub open spec fn after_render_attempt(&self, now: u64, presentation: bool) -> Schedule {
        Schedule {
            last_render_at: Some(now),
            last_presentation_at: if presentation {
                Some(now)
            } else {
                self.last_presentation_at
            },
            ..*self
        }
    }

    /// Whether enough time has passed since the last attempt to render.
    pub fn can_render_now(&self, now: u64, intervals: Intervals) -> (r: bool)
        ensures
            r == self.may_render(now, intervals),
    {
        match self.last_render_at {
            Some(t) => if now >= t {
                now - t >= intervals.min_render
            } else {
                intervals.min_render == 0
            },
            None => true,
        }
    }

    /// Whether enough time has passed since something was last presented.
    pub fn can_present_now(&self, now: u64, intervals: Intervals) -> (r: bool)
        ensures
            r == self.may_present(now, intervals),
    {
        match self.last_presentation_at {
            Some(t) => if now >= t {
                now - t >= intervals.min_render
            } else {
                intervals.min_render == 0
            },
            None => true,
        }
    }

    pub fn record_render_attempt(&mut self, now: u64, presentation: bool)
        ensures
            *final(self) == old(self).after_render_attempt(now, presentation),
    {
        self.last_render_at = Some(now);
        if presentation {
            self.last_presentation_at = Some(now);
        }
    }

    /// Whether a check for an update is to be started, and when the next one is. Once an update
    /// was found no more are looked for.
    pub fn run_auto_update_check(&mut self, now: u64, intervals: Intervals) -> (r: bool)
        requires
            now + intervals.update_check <= u64::MAX,
        ensures
            update_check_run(*old(self), *final(self), now, intervals, r),
    {
        if self.updates.no_session || !self.updates.version_check {
            self.next_auto_update_check = None;
            return false;
        }
        if self.updates.update_available {
            self.next_auto_update_check = None;
            return false;
        }
        self.next_auto_update_check = Some(now + intervals.update_check);
        true
    }

    /// Whether a check for agent manifests is to be started, and when the next one is.
    pub fn run_agent_manifest_update_check(&mut self, now: u64, intervals: Intervals) -> (r: bool)
        requires
            now + intervals.update_check <= u64::MAX,
        ensures
            manifest_check_run(*old(self), *final(self), now, intervals, r),
    {
        if self.updates.no_session || !self.updates.manifest_check {
            self.next_agent_manifest_update_check = None;
            return false;
        }
        self.next_agent_manifest_update_check = Some(now + intervals.update_check);
        true
    }

    /// The outside work that is due.
    pub open spec fn spec_due_work(&self, now: u64) -> DueWork {
        DueWork {
            read_terminal_size: now >= self.next_resize_poll,
            drain_notifications: is_due(self.notification_deadline, now),
            check_for_update: is_due(self.next_auto_update_check, now) && self.updates.may_check(
                self.updates.version_check,
            ) && !self.updates.update_available,
            check_for_manifests: is_due(self.next_agent_manifest_update_check, now)
                && self.updates.may_check(self.updates.manifest_check),
            save_session: is_due(self.session_save_deadline, now),
            expire_metadata: is_due(self.agent_metadata_deadline, now),
            reconcile_agents: is_due(self.managed_agent_deadline, now),
        }
    }

    pub fn due_work(&self, now: u64) -> (r: DueWork)
        ensures
            r == self.spec_due_work(now),
    {
        DueWork {
            read_terminal_size: now >= self.next_resize_poll,
            drain_notifications: due(self.notification_deadline, now),
            check_for_update: due(self.next_auto_update_check, now) && !self.updates.no_session
                && self.updates.version_check && !self.updates.update_available,
            check_for_manifests: due(self.next_agent_manifest_update_check, now)
                && !self.updates.no_session && self.updates.manifest_check,
            save_session: due(self.session_save_deadline, now),
            expire_metadata: due(self.agent_metadata_deadline, now),
            reconcile_agents: due(self.managed_agent_deadline, now),
        }
    }

    /// Reconcile managed agents when they are due: whether any changed.
    pub fn reconcile_due_managed_agents(
        &mut self,
        now: u64,
        reconciled: bool,
        next: Option<u64>,
    ) -> (r: bool)
        ensures
            agents_reconciled(*old(self), *final(self), now, reconciled, next, r),
    {
        if !due(self.managed_agent_deadline, now) {
            return false;
        }
        self.managed_agent_deadline = next;
        reconciled
    }

    /// Take note that metadata expired when it was due: whether it was.
    pub fn expire_due_metadata(&mut self, now: u64, next: Option<u64>) -> (r: bool)
        ensures
            due_metadata_expired(*old(self), *final(self), now, next, r),
    {
        if !due(self.agent_metadata_deadline, now) {
            return false;
        }
        self.agent_metadata_deadline = next;
        true
    }

    /// Whether the terminal changed its size in this round.
    pub open spec fn resized(&self, now: u64, done: WorkDone) -> bool {
        now >= self.next_resize_poll && done.terminal_size is Some && self.last_terminal_size
            != done.terminal_size
    }

    /// Whether the highlight of a selection goes in this round.
    pub open spec fn highlight_goes(&self, now: u64) -> bool {
        is_due(self.selection_highlight_clear_deadline, now) && (self.selection matches Some(s)
            && s.phase == SelectionPhase::Done)
    }

    /// Whether the round changes what is on screen, but for the agents it lets resume.
    pub open spec fn round_changes(&self, now: u64, done: WorkDone) -> bool {
        ||| self.resized(now, done)
        ||| is_due(self.config_diagnostic_deadline, now)
        ||| is_due(self.toast_deadline, now)
        ||| is_due(self.notification_deadline, now) && done.notified
        ||| is_due(self.copy_feedback_deadline, now)
        ||| is_due(self.selection_autoscroll_deadline, now)
        ||| self.highlight_goes(now)
        ||| is_due(self.agent_metadata_deadline, now)
        ||| is_due(self.managed_agent_deadline, now) && done.reconciled
    }

    /// What is scrolled in this round.
    pub open spec fn round_scroll(&self, now: u64, done: WorkDone) -> AutoscrollStep {
        if is_due(self.selection_autoscroll_deadline, now) {
            self.autoscroll_step(done.selection_rect, done.selection_scroll)
        } else {
            AutoscrollStep::Nothing
        }
    }

    /// Whether pending agents may be resumed in this round, and whether their time is up. The
    /// geometry has to be settled first: it is what an agent is started with.
    pub open spec fn resumes(&self, now: u64, geometry_dirty: bool, done: WorkDone) -> Option<bool> {
        if geometry_dirty || self.resized(now, done) {
            None
        } else {
            Some(is_due(done.resume_deadline, now))
        }
    }

    /// After the terminal's size was looked at, where that was due.
    pub open spec fn after_poll(&self, now: u64, interval: u64, size: Option<(u16, u16)>) -> Schedule {
        if now >= self.next_resize_poll {
            Schedule {
                next_resize_poll: (now + interval) as u64,
                last_terminal_size: if size is Some {
                    size
                } else {
                    self.last_terminal_size
                },
                ..*self
            }
        } else {
            *self
        }
    }

    /// After messages whose time is up went, and notifications whose time has come were delivered.
    /// A toast that a delivery left stays as long as the delivery says.
    pub open spec fn after_messages(&self, now: u64, done: WorkDone) -> Schedule {
        Schedule {
            config_diagnostic: if is_due(self.config_diagnostic_deadline, now) {
                None
            } else {
                self.config_diagnostic
            },
            config_diagnostic_deadline: if is_due(self.config_diagnostic_deadline, now) {
                None
            } else {
                self.config_diagnostic_deadline
            },
            toast: if is_due(self.notification_deadline, now) && done.notified {
                done.toast
            } else if is_due(self.toast_deadline, now) {
                None
            } else {
                self.toast
            },
            toast_deadline: if is_due(self.notification_deadline, now) && done.notified {
                done.toast_deadline
            } else if is_due(self.toast_deadline, now) {
                None
            } else {
                self.toast_deadline
            },
            notification_deadline: if is_due(self.notification_deadline, now) {
                done.next_notification
            } else {
                self.notification_deadline
            },
            copy_feedback: if is_due(self.copy_feedback_deadline, now) {
                None
            } else {
                self.copy_feedback
            },
            copy_feedback_deadline: if is_due(self.copy_feedback_deadline, now) {
                None
            } else {
                self.copy_feedback_deadline
            },
            ..*self
        }
    }

    /// After a tick of autoscroll, where that was due.
    pub open spec fn after_tick(&self, now: u64, interval: u64, done: WorkDone) -> Schedule {
        if is_due(self.selection_autoscroll_deadline, now) {
            self.after_autoscroll(
                self.autoscroll_step(done.selection_rect, done.selection_scroll),
                now,
                interval,
            )
        } else {
            *self
        }
    }

    /// After the highlight of a copied token went, where its time was up.
    pub open spec fn after_highlight(&self, now: u64) -> Schedule {
        Schedule {
            selection_highlight_clear_deadline: if is_due(
                self.selection_highlight_clear_deadline,
                now,
            ) {
                None
            } else {
                self.selection_highlight_clear_deadline
            },
            selection: if self.highlight_goes(now) {
                None
            } else {
                self.selection
            },
            ..*self
        }
    }

    /// After the checks and the save that were due were started.
    pub open spec fn after_starts(&self, now: u64, interval: u64, next_save: Option<u64>) -> Schedule {
        Schedule {
            next_auto_update_check: if !is_due(self.next_auto_update_check, now) {
                self.next_auto_update_check
            } else if self.spec_due_work(now).check_for_update {
                Some((now + interval) as u64)
            } else {
                None
            },
            next_agent_manifest_update_check: if !is_due(
                self.next_agent_manifest_update_check,
                now,
            ) {
                self.next_agent_manifest_update_check
            } else if self.spec_due_work(now).check_for_manifests {
                Some((now + interval) as u64)
            } else {
                None
            },
            session_save_deadline: if is_due(self.session_save_deadline, now) {
                next_save
            } else {
                self.session_save_deadline
            },
            ..*self
        }
    }

    /// After metadata expired and agents were reconciled, where due. Pending agents wait for the
    /// geometry to settle.
    pub open spec fn after_agents(&self, now: u64, unsettled: bool, done: WorkDone) -> Schedule {
        Schedule {
            agent_metadata_deadline: if is_due(self.agent_metadata_deadline, now) {
                done.next_metadata_expiry
            } else {
                self.agent_metadata_deadline
            },
            managed_agent_deadline: if is_due(self.managed_agent_deadline, now) {
                done.next_managed_agent
            } else {
                self.managed_agent_deadline
            },
            pending_agent_resume_deadline: if unsettled {
                None
            } else {
                done.resume_deadline
            },
            ..*self
        }
    }

    /// The state after the round.
    pub open spec fn after_round(
        &self,
        now: u64,
        geometry_dirty: bool,
        intervals: Intervals,
        done: WorkDone,
    ) -> Schedule {
        self.after_poll(now, intervals.resize_poll, done.terminal_size).after_messages(
            now,
            done,
        ).after_tick(now, intervals.selection_autoscroll, done).after_highlight(now).after_starts(
            now,
            intervals.update_check,
            done.next_session_save,
        ).after_agents(now, geometry_dirty || self.resized(now, done), done)
    }

    fn poll_size(&mut self, now: u64, interval: u64, size: Option<(u16, u16)>) -> (r: bool)
        requires
            now + interval <= u64::MAX,
        ensures
            r == (now >= old(self).next_resize_poll && size is Some && old(self).last_terminal_size
                != size),
            *final(self) == old(self).after_poll(now, interval, size),
    {
        if now >= self.next_resize_poll {
            let resized = self.handle_resize_poll(size);
            self.next_resize_poll = now + interval;
            resized
        } else {
            false
        }
    }

    fn expire_messages(&mut self, now: u64, done: &WorkDone) -> (r: bool)
        ensures
            r == (is_due(old(self).config_diagnostic_deadline, now) || is_due(
                old(self).toast_deadline,
                now,
            ) || (is_due(old(self).notification_deadline, now) && done.notified) || is_due(
                old(self).copy_feedback_deadline,
                now,
            )),
            *final(self) == old(self).after_messages(now, *done),
    {
        let mut changed = false;
        if due(self.config_diagnostic_deadline, now) {
            self.config_diagnostic_deadline = None;
            self.config_diagnostic = None;
            changed = true;
        }
        if due(self.toast_deadline, now) {
            self.toast_deadline = None;
            self.toast = None;
            changed = true;
        }
        if due(self.notification_deadline, now) {
            self.notification_deadline = done.next_notification;
            if done.notified {
                self.toast = clone_opt_text(&done.toast);
                self.toast_deadline = done.toast_deadline;
                changed = true;
            }
        }
        if due(self.copy_feedback_deadline, now) {
            self.copy_feedback_deadline = None;
            self.copy_feedback = None;
            changed = true;
        }
        changed
    }

    fn start_due_checks(&mut self, now: u64, intervals: Intervals, next_save: Option<u64>)
        requires
            now + intervals.update_check <= u64::MAX,
        ensures
            *final(self) == old(self).after_starts(now, intervals.update_check, next_save),
    {
        if due(self.next_auto_update_check, now) {
            let _ = self.run_auto_update_check(now, intervals);
        }
        if due(self.next_agent_manifest_update_check, now) {
            let _ = self.run_agent_manifest_update_check(now, intervals);
        }
        if due(self.session_save_deadline, now) {
            self.session_save_deadline = next_save;
        }
    }

    fn settle_agents(&mut self, now: u64, unsettled: bool, done: &WorkDone) -> (r: bool)
        ensures
            r == (is_due(old(self).agent_metadata_deadline, now) || (is_due(
                old(self).managed_agent_deadline,
                now,
            ) && done.reconciled)),
            *final(self) == old(self).after_agents(now, unsettled, *done),
    {
        let expired = self.expire_due_metadata(now, done.next_metadata_expiry);
        let reconciled = self.reconcile_due_managed_agents(
            now,
            done.reconciled,
            done.next_managed_agent,
        );
        self.pending_agent_resume_deadline = if unsettled {
            None
        } else {
            done.resume_deadline
        };
        expired || reconciled
    }

    /// One round of scheduled tasks, after the outside work that was due: what it changes, whether
    /// that shows on screen, and the scrolling, the refresh of repositories and the resumes that it
    /// asks for. Resumes come after the round, and only where it says so.
    pub fn handle_scheduled_tasks(
        &mut self,
        now: u64,
        geometry_dirty: bool,
        intervals: Intervals,
        done: WorkDone,
        git: &mut GitRefresh,
        repositories: &Repositories,
    ) -> (r: Round)
        requires
            now + intervals.resize_poll <= u64::MAX,
            now + intervals.selection_autoscroll <= u64::MAX,
            now + intervals.update_check <= u64::MAX,
            old(git).last_remote_status + repositories.intervals.remote_status <= u64::MAX,
        ensures
            r.changed == old(self).round_changes(now, done),
            r.scroll == old(self).round_scroll(now, done),
            *final(self) == old(self).after_round(now, geometry_dirty, intervals, done),
            old(git).started(
                *final(git),
                now,
                repositories.workspaces@,
                repositories.demand,
                repositories.intervals,
                r.refresh,
            ),
            r.resume == old(self).resumes(now, geometry_dirty, done),
    {
        let mut scroll = AutoscrollStep::Nothing;
        let resized = self.poll_size(now, intervals.resize_poll, done.terminal_size);
        let messages = self.expire_messages(now, &done);
        let ticks = due(self.selection_autoscroll_deadline, now);
        if ticks {
            scroll = self.tick_selection_autoscroll(
                now,
                intervals.selection_autoscroll,
                done.selection_rect,
                done.selection_scroll,
            );
        }
        let cleared = self.clear_due_selection_highlight(now);
        let refresh = git.start_git_status_refresh_if_due(
            now,
            &repositories.workspaces,
            repositories.demand,
            repositories.intervals,
        );
        self.start_due_checks(now, intervals, done.next_session_save);
        let unsettled = geometry_dirty || resized;
        let agents = self.settle_agents(now, unsettled, &done);
        let resume = if unsettled {
            None
        } else {
            Some(due(done.resume_deadline, now))
        };
        Round { changed: resized || messages || ticks || cleared || agents, scroll, refresh, resume }
    }

    /// When a wanted render may happen, where that is still ahead.
    pub open spec fn render_deadline(&self, now: u64, needs_render: bool, min_render: u64) -> Option<
        u64,
    > {
        match self.last_render_at {
            Some(t) if needs_render && t + min_render > now => Some((t + min_render) as u64),
            _ => None,
        }
    }

    /// All that the loop waits for.
    pub open spec fn deadlines(
        &self,
        now: u64,
        needs_render: bool,
        include_resize_poll: bool,
        git_refresh: Option<u64>,
        min_render: u64,
    ) -> Seq<Option<u64>> {
        seq![
            if include_resize_poll {
                Some(self.next_resize_poll)
            } else {
                None
            },
            self.config_diagnostic_deadline,
            self.toast_deadline,
            self.notification_deadline,
            self.managed_agent_deadline,
            self.copy_feedback_deadline,
            git_refresh,
            self.next_auto_update_check,
            self.next_agent_manifest_update_check,
            self.agent_metadata_deadline,
            self.pending_agent_resume_deadline,
            self.session_save_deadline,
            self.selection_autoscroll_deadline,
            self.selection_highlight_clear_deadline,
            self.render_deadline(now, needs_render, min_render),
        ]
    }

    /// All that the loop waits for without a terminal of its own: there is no size to look at, and
    /// repositories count only where they are asked for.
    pub open spec fn headless_deadlines(
        &self,
        now: u64,
        needs_render: bool,
        include_git_refresh: bool,
        git_refresh: Option<u64>,
        min_render: u64,
    ) -> Seq<Option<u64>> {
        self.deadlines(
            now,
            needs_render,
            false,
            if include_git_refresh {
                git_refresh
            } else {
                None
            },
            min_render,
        )
    }

    /// When the loop wakes next. `git_refresh` is the refresh deadline, where it counts.
    pub fn next_loop_deadline_with_resize_poll(
        &self,
        now: u64,
        needs_render: bool,
        include_resize_poll: bool,
        git_refresh: Option<u64>,
        intervals: Intervals,
    ) -> (r: Option<u64>)
        requires
            self.last_render_at matches Some(t) ==> t + intervals.min_render <= u64::MAX,
        ensures
            r == earliest(
                self.deadlines(
                    now,
                    needs_render,
                    include_resize_poll,
                    git_refresh,
                    intervals.min_render,
                ),
            ),
    {
        let render: Option<u64> = match self.last_render_at {
            Some(t) => if needs_render && t + intervals.min_render > now {
                Some(t + intervals.min_render)
            } else {
                None
            },
            None => None,
        };
        let mut times: Vec<Option<u64>> = Vec::new();
        times.push(
            if include_resize_poll {
                Some(self.next_resize_poll)
            } else {
                None
            },
        );
        times.push(self.config_diagnostic_deadline);
        times.push(self.toast_deadline);
        times.push(self.notification_deadline);
        times.push(self.managed_agent_deadline);
        times.push(self.copy_feedback_deadline);
        times.push(git_refresh);
        times.push(self.next_auto_update_check);
        times.push(self.next_agent_manifest_update_check);
        times.push(self.agent_metadata_deadline);
        times.push(self.pending_agent_resume_deadline);
        times.push(self.session_save_deadline);
        times.push(self.selection_autoscroll_deadline);
        times.push(self.selection_highlight_clear_deadline);
        times.push(render);
        proof {
            assert(times@ =~= self.deadlines(
                now,
                needs_render,
                include_resize_poll,
                git_refresh,
                intervals.min_render,
            ));
        }
        least(&times)
    }

    /// When the loop with a terminal of its own wakes next.
    pub fn next_loop_deadline(
        &self,
        now: u64,
        needs_render: bool,
        git_refresh: Option<u64>,
        intervals: Intervals,
    ) -> (r: Option<u64>)
        requires
            self.last_render_at matches Some(t) ==> t + intervals.min_render <= u64::MAX,
        ensures
            r == earliest(
                self.deadlines(now, needs_render, true, git_refresh, intervals.min_render),
            ),
    {
        self.next_loop_deadline_with_resize_poll(now, needs_render, true, git_refresh, intervals)
    }

    /// When the headless loop wakes next; the refresh of repositories may be left out.
    pub fn next_headless_loop_deadline_with_git_refresh(
        &self,
        now: u64,
        needs_render: bool,
        include_git_refresh: bool,
        git_refresh: Option<u64>,
        intervals: Intervals,
    ) -> (r: Option<u64>)
        requires
            self.last_render_at matches Some(t) ==> t + intervals.min_render <= u64::MAX,
        ensures
            r == earliest(
                self.headless_deadlines(
                    now,
                    needs_render,
                    include_git_refresh,
                    git_refresh,
                    intervals.min_render,
                ),
            ),
    {
        let git_refresh: Option<u64> = if include_git_refresh {
            git_refresh
        } else {
            None
        };
        self.next_loop_deadline_with_resize_poll(now, needs_render, false, git_refresh, intervals)
    }
}

fn least(times: &Vec<Option<u64>>) -> (r: Option<u64>)
    ensures
        r == earliest(times@),
{
    let mut best: Option<u64> = None;
    let mut i: usize = 0;
    while i < times.len()
        invariant
            i <= times@.len(),
            best == earliest(times@.take(i as int)),
        decreases times@.len() - i,
    {
        proof {
            assert(times@.take(i + 1).drop_last() =~= times@.take(i as int));
        }
        best = match (best, times[i]) {
            (Some(x), Some(y)) => if x <= y {
                Some(x)
            } else {
                Some(y)
            },
            (Some(x), None) => Some(x),
            (None, y) => y,
        };
        i = i + 1;
    }
    proof {
        assert(times@.take(i as int) =~= times@);
    }
    best
}

/// Autoscroll stops by itself: a tick that does not scroll leaves nothing scheduled.
pub proof fn law_autoscroll_stops_when_it_cannot_scroll(
    state: Schedule,
    rect: Option<Rect>,
    metrics: Option<ScrollMetrics>,
    now: u64,
    interval: u64,
)
    requires
        now + interval <= u64::MAX,
    ensures
        ({
            let step = state.autoscroll_step(rect, metrics);
            let after = state.after_autoscroll(step, now, interval);
            (after.selection_autoscroll_deadline is Some) <==> step is Scroll
        }),
{
}

/// Everything that was due once is no longer due at the same instant after a round, unless the
/// outside work says that more is due at once, or an interval is zero.
pub proof fn law_a_round_leaves_nothing_due(
    state: Schedule,
    now: u64,
    geometry_dirty: bool,
    intervals: Intervals,
    done: WorkDone,
)
    requires
        0 < intervals.resize_poll,
        0 < intervals.selection_autoscroll,
        0 < intervals.update_check,
        now + intervals.resize_poll <= u64::MAX,
        now + intervals.selection_autoscroll <= u64::MAX,
        now + intervals.update_check <= u64::MAX,
        !is_due(done.next_notification, now),
        !is_due(done.toast_deadline, now),
        !is_due(done.next_session_save, now),
        !is_due(done.next_metadata_expiry, now),
        !is_due(done.next_managed_agent, now),
    ensures
        ({
            let after = state.after_round(now, geometry_dirty, intervals, done);
            after.spec_due_work(now) == (DueWork {
                read_terminal_size: false,
                drain_notifications: false,
                check_for_update: false,
                check_for_manifests: false,
                save_session: false,
                expire_metadata: false,
                reconcile_agents: false,
            }) && !is_due(after.config_diagnostic_deadline, now) && !is_due(
                after.toast_deadline,
                now,
            ) && !is_due(after.copy_feedback_deadline, now) && !is_due(
                after.selection_autoscroll_deadline,
                now,
            ) && !is_due(after.selection_highlight_clear_deadline, now)
        }),
{
}

/// Agents are resumed only once the geometry has settled: a round with unsettled geometry asks for
/// no resume, and leaves none scheduled; any other lets them resume, and keeps their time.
pub proof fn law_resumes_wait_for_the_geometry(
    state: Schedule,
    now: u64,
    geometry_dirty: bool,
    intervals: Intervals,
    done: WorkDone,
)
    ensures
        ({
            let after = state.after_round(now, geometry_dirty, intervals, done);
            if geometry_dirty || state.resized(now, done) {
                state.resumes(now, geometry_dirty, done) is None
                    && after.pending_agent_resume_deadline is None
            } else {
                state.resumes(now, geometry_dirty, done) == Some(
                    is_due(after.pending_agent_resume_deadline, now),
                ) && after.pending_agent_resume_deadline == done.resume_deadline
            }
        }),
{
}

/// An attempt to render that presents nothing delays the next attempt, not the next presentation.
pub proof fn law_a_hidden_attempt_delays_no_presentation(
    state: Schedule,
    at: u64,
    now: u64,
    intervals: Intervals,
)
    ensures
        state.after_render_attempt(at, false).may_present(now, intervals) == state.may_present(
            now,
            intervals,
        ),
        elapsed(at, now) < intervals.min_render ==> !state.after_render_attempt(
            at,
            false,
        ).may_render(now, intervals),
{
}

/// After a presentation neither comes again before the interval is over, and both may then.
pub proof fn law_presentations_keep_their_distance(
    state: Schedule,
    at: u64,
    now: u64,
    intervals: Intervals,
)
    ensures
        ({
            let after = state.after_render_attempt(at, true);
            after.may_render(now, intervals) == after.may_present(now, intervals)
                && after.may_present(now, intervals) == (elapsed(at, now) >= intervals.min_render)
        }),
{
}

} // verus!
