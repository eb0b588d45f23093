//! Raw input: what each event asks for, and how a held key is repeated.

use vstd::prelude::*;
use vstd::string::*;
use crate::text::clone_opt_text;

verus! {

#[derive(Clone, Copy, Debug, PartialEq, Eq, Structural)]
pub enum KeyKind {
    Press,
    Repeat,
    Release,
}

/// An event from the host terminal, as far as routing goes.
#[derive(Clone, Copy, Debug, PartialEq, Eq, Structural)]
pub enum RawInput {
    Key(KeyKind),
    Text,
    Paste,
    Mouse { moved: bool },
    OuterFocusGained,
    OuterFocusLost,
    HostDefaultColor,
    HostPaletteColors,
    HostColorSchemeChanged,
    HostCellSizeReport,
    Unsupported,
}

/// What routing depends on, and changes.
#[derive(Clone, Copy, Debug, PartialEq, Eq, Structural)]
pub struct InputState {
    pub mouse_capture: bool,
    pub popup_open: bool,
    /// The mode shows where the mouse is.
    pub mouse_motion_changes_view: bool,
    pub redraw_on_focus_gained: bool,
    pub outer_terminal_focus: Option<bool>,
}

/// What is to be done about an event.
#[derive(Clone, Copy, Debug, PartialEq, Eq, Structural)]
pub enum InputAction {
    /// Handle the key, then carry out the repeats its lease calls for.
    PressKey,
    /// Carry out the repeats the key's lease calls for.
    RepeatKey,
    /// Send the release to where the press was forwarded, if it was.
    ReleaseKey,
    CommitText,
    Paste,
    /// The mouse is the interface's.
    Mouse,
    /// The mouse is the pane's alone.
    PaneMouse,
    /// Ask for the host's appearance and tell the pane; look at the active tab.
    FocusGained { repaint: bool },
    /// Let go of all held keys and tell the pane.
    FocusLost,
    UpdateDefaultColor,
    UpdatePalette,
    /// Ask for the host's colors and take over its appearance.
    ChangeColorScheme,
    Nothing,
}

/// What is to be done about an event.
pub open spec fn action_for(state: InputState, event: RawInput) -> InputAction {
    match event {
        RawInput::Key(KeyKind::Press) => InputAction::PressKey,
        RawInput::Key(KeyKind::Repeat) => InputAction::RepeatKey,
        RawInput::Key(KeyKind::Release) => InputAction::ReleaseKey,
        RawInput::Text => InputAction::CommitText,
        RawInput::Paste => InputAction::Paste,
        RawInput::Mouse { .. } => if state.mouse_capture || state.popup_open {
            InputAction::Mouse
        } else {
            InputAction::PaneMouse
        },
        RawInput::OuterFocusGained => InputAction::FocusGained {
            repaint: state.redraw_on_focus_gained,
        },
        RawInput::OuterFocusLost => InputAction::FocusLost,
        RawInput::HostDefaultColor => InputAction::UpdateDefaultColor,
        RawInput::HostPaletteColors => InputAction::UpdatePalette,
        RawInput::HostColorSchemeChanged => InputAction::ChangeColorScheme,
        RawInput::HostCellSizeReport => InputAction::Nothing,
        RawInput::Unsupported => InputAction::Nothing,
    }
}

/// Whether what is on screen is to be drawn again. `done` is what the action itself says of that,
/// where it depends on it.
pub open spec fn event_changes(state: InputState, event: RawInput, done: bool) -> bool {
    match event {
        RawInput::Key(KeyKind::Press) => true,
        RawInput::Key(KeyKind::Repeat) => done,
        RawInput::Key(KeyKind::Release) => false,
        RawInput::Text => true,
        RawInput::Paste => true,
        RawInput::Mouse { moved } => !moved || state.mouse_motion_changes_view,
        RawInput::OuterFocusGained => true,
        RawInput::OuterFocusLost => false,
        RawInput::HostDefaultColor => done,
        RawInput::HostPaletteColors => done,
        RawInput::HostColorSchemeChanged => done,
        RawInput::HostCellSizeReport => false,
        RawInput::Unsupported => false,
    }
}

/// `new` is `old` after an event, and `r` what is to be done about it.
pub open spec fn input_taken(
    old: InputState,
    new: InputState,
    event: RawInput,
    r: InputAction,
) -> bool {
    &&& r == action_for(old, event)
    &&& new == (InputState {
        outer_terminal_focus: match event {
            RawInput::OuterFocusGained => Some(true),
            RawInput::OuterFocusLost => Some(false),
            _ => old.outer_terminal_focus,
        },
        ..old
    })
}

impl InputState {
    /// Route an event.
    pub fn handle_raw_input_event(&mut self, event: RawInput) -> (r: InputAction)
        ensures
            input_taken(*old(self), *final(self), event, r),
    {
        match event {
            RawInput::Key(KeyKind::Press) => InputAction::PressKey,
            RawInput::Key(KeyKind::Repeat) => InputAction::RepeatKey,
            RawInput::Key(KeyKind::Release) => InputAction::ReleaseKey,
            RawInput::Text => InputAction::CommitText,
            RawInput::Paste => InputAction::Paste,
            RawInput::Mouse { .. } => if self.mouse_capture || self.popup_open {
                InputAction::Mouse
            } else {
                InputAction::PaneMouse
            },
            RawInput::OuterFocusGained => {
                self.outer_terminal_focus = Some(true);
                InputAction::FocusGained { repaint: self.redraw_on_focus_gained }
            },
            RawInput::OuterFocusLost => {
                self.outer_terminal_focus = Some(false);
                InputAction::FocusLost
            },
            RawInput::HostDefaultColor => InputAction::UpdateDefaultColor,
            RawInput::HostPaletteColors => InputAction::UpdatePalette,
            RawInput::HostColorSchemeChanged => InputAction::ChangeColorScheme,
            RawInput::HostCellSizeReport => InputAction::Nothing,
            RawInput::Unsupported => InputAction::Nothing,
        }
    }

    /// Whether an event, once acted on, changes what is on screen. The state is the one in which
    /// the event came.
    pub fn raw_input_changes_view(&self, event: RawInput, done: bool) -> (r: bool)
        ensures
            r == event_changes(*self, event, done),
    {
        match event {
            RawInput::Key(KeyKind::Press) => true,
            RawInput::Key(KeyKind::Repeat) => done,
            RawInput::Key(KeyKind::Release) => false,
            RawInput::Text => true,
            RawInput::Paste => true,
            RawInput::Mouse { moved } => !moved || self.mouse_motion_changes_view,
            RawInput::OuterFocusGained => true,
            RawInput::OuterFocusLost => false,
            RawInput::HostDefaultColor => done,
            RawInput::HostPaletteColors => done,
            RawInput::HostColorSchemeChanged => done,
            RawInput::HostCellSizeReport => false,
            RawInput::Unsupported => false,
        }
    }
}

// ---------------------------------------------------------------------------------------------
// Repeats
// ---------------------------------------------------------------------------------------------

/// How the repeats of a held key are carried out. Targets are terminal ids.
#[derive(Debug)]
pub enum RepeatPlan {
    /// The key is held down in a terminal: forward it there.
    Forwarded(String),
    /// Handle the key again so many times, as long as the context allows. A sticky key that lands
    /// in a terminal stays with it.
    Reprocess { repetitions: u64, sticky: bool },
    Ignore,
}

/// What is to be done next.
#[derive(Debug)]
pub enum RepeatStep {
    /// Forward the key to the terminal.
    Forward(String),
    /// Look whether the context still allows the key to be handled again.
    CheckContext,
    /// Handle the key.
    HandleKey,
    /// All is done. `discard` is the terminal whose lease is to be given up.
    Done { discard: Option<String>, changed: bool },
}

/// What came of the last step.
#[derive(Debug)]
pub enum RepeatEvent {
    Forwarded(bool),
    ContextChecked(bool),
    /// The key was handled; it landed in this terminal, if in any.
    KeyHandled(Option<String>),
}

/// Repeats that are being carried out.
#[derive(Debug)]
pub struct RepeatRun {
    pub left: u64,
    pub sticky: bool,
    /// The terminal the rest of the repeats goes to.
    pub target: Option<String>,
}

/// The step that goes on with a run.
pub open spec fn next_step(run: RepeatRun) -> RepeatStep {
    if run.left == 0 {
        RepeatStep::Done { discard: None, changed: true }
    } else {
        match run.target {
            Some(target) => RepeatStep::Forward(target),
            None => RepeatStep::CheckContext,
        }
    }
}

/// The event is an answer to the step the run is at.
pub open spec fn answers(run: RepeatRun, event: RepeatEvent) -> bool {
    &&& run.left > 0
    &&& match event {
        RepeatEvent::Forwarded(_) => run.target is Some,
        RepeatEvent::ContextChecked(_) => run.target is None,
        RepeatEvent::KeyHandled(_) => run.target is None,
    }
}

/// The run after an event.
pub open spec fn after_event(run: RepeatRun, event: RepeatEvent) -> RepeatRun {
    match event {
        RepeatEvent::Forwarded(true) => RepeatRun { left: (run.left - 1) as u64, ..run },
        RepeatEvent::Forwarded(false) => run,
        RepeatEvent::ContextChecked(_) => run,
        RepeatEvent::KeyHandled(target) => RepeatRun {
            left: (run.left - 1) as u64,
            target: if run.sticky {
                target
            } else {
                None
            },
            ..run
        },
    }
}

/// The step after an event.
pub open spec fn step_after(run: RepeatRun, event: RepeatEvent) -> RepeatStep {
    match event {
        RepeatEvent::Forwarded(true) => next_step(after_event(run, event)),
        RepeatEvent::Forwarded(false) => RepeatStep::Done { discard: run.target, changed: true },
        RepeatEvent::ContextChecked(true) => RepeatStep::HandleKey,
        RepeatEvent::ContextChecked(false) => RepeatStep::Done { discard: None, changed: true },
        RepeatEvent::KeyHandled(_) => next_step(after_event(run, event)),
    }
}

/// The terminal that a lease is to be taken out for: where a sticky key landed.
pub open spec fn lease_after(run: RepeatRun, event: RepeatEvent) -> Option<String> {
    match event {
        RepeatEvent::KeyHandled(target) => if run.sticky {
            target
        } else {
            None
        },
        _ => None,
    }
}

/// The run that a plan makes.
pub open spec fn run_of(plan: RepeatPlan) -> RepeatRun {
    match plan {
        RepeatPlan::Forwarded(target) => RepeatRun { left: 1, sticky: false, target: Some(target) },
        RepeatPlan::Reprocess { repetitions, sticky } => RepeatRun {
            left: repetitions,
            sticky,
            target: None,
        },
        RepeatPlan::Ignore => RepeatRun { left: 0, sticky: false, target: None },
    }
}

/// The first step of a plan.
pub open spec fn first_step(plan: RepeatPlan) -> RepeatStep {
    match plan {
        RepeatPlan::Ignore => RepeatStep::Done { discard: None, changed: false },
        _ => next_step(run_of(plan)),
    }
}

impl RepeatRun {
    fn next(&self) -> (r: RepeatStep)
        ensures
            r == next_step(*self),
    {
        if self.left == 0 {
            RepeatStep::Done { discard: None, changed: true }
        } else {
            match &self.target {
                Some(target) => RepeatStep::Forward(target.clone()),
                None => RepeatStep::CheckContext,
            }
        }
    }

    /// Start carrying out a plan.
    pub fn start(plan: RepeatPlan) -> (r: (RepeatRun, RepeatStep))
        ensures
            r.0 == run_of(plan),
            r.1 == first_step(plan),
    {
        match plan {
            RepeatPlan::Forwarded(target) => {
                let run = RepeatRun { left: 1, sticky: false, target: Some(target) };
                let step = run.next();
                (run, step)
            },
            RepeatPlan::Reprocess { repetitions, sticky } => {
                let run = RepeatRun { left: repetitions, sticky, target: None };
                let step = run.next();
                (run, step)
            },
            RepeatPlan::Ignore => (
                RepeatRun { left: 0, sticky: false, target: None },
                RepeatStep::Done { discard: None, changed: false },
            ),
        }
    }

    /// Go on with what came of the last step: the next step, and the terminal that a lease is to be
    /// taken out for.
    pub fn advance(&mut self, event: RepeatEvent) -> (r: (RepeatStep, Option<String>))
        requires
            answers(*old(self), event),
        ensures
            r.0 == step_after(*old(self), event),
            r.1 == lease_after(*old(self), event),
            *final(self) == after_event(*old(self), event),
    {
        match event {
            RepeatEvent::Forwarded(true) => {
                self.left = self.left - 1;
                (self.next(), None)
            },
            RepeatEvent::Forwarded(false) => (
                RepeatStep::Done { discard: clone_opt_text(&self.target), changed: true },
                None,
            ),
            RepeatEvent::ContextChecked(true) => (RepeatStep::HandleKey, None),
            RepeatEvent::ContextChecked(false) => (
                RepeatStep::Done { discard: None, changed: true },
                None,
            ),
            RepeatEvent::KeyHandled(target) => {
                self.left = self.left - 1;
                if self.sticky {
                    self.target = clone_opt_text(&target);
                    (self.next(), target)
                } else {
                    self.target = None;
                    (self.next(), None)
                }
            },
        }
    }
}

/// The number of times the key was sent on or handled in the course of some events.
pub open spec fn deliveries(events: Seq<RepeatEvent>) -> nat
    decreases events.len(),
{
    if events.len() == 0 {
        0
    } else {
        deliveries(events.drop_last()) + match events.last() {
            RepeatEvent::Forwarded(true) => 1nat,
            RepeatEvent::KeyHandled(_) => 1,
            _ => 0,
        }
    }
}

/// The run after some events.
pub open spec fn after_events(run: RepeatRun, events: Seq<RepeatEvent>) -> RepeatRun
    decreases events.len(),
{
    if events.len() == 0 {
        run
    } else {
        after_event(after_events(run, events.drop_last()), events.last())
    }
}

/// Each event answers the step before it.
pub open spec fn is_course(run: RepeatRun, events: Seq<RepeatEvent>) -> bool
    decreases events.len(),
{
    events.len() == 0 || (is_course(run, events.drop_last()) && answers(
        after_events(run, events.drop_last()),
        events.last(),
    ))
}

/// A key is delivered no more often than it is to be repeated, whatever comes of each delivery.
pub proof fn law_no_more_deliveries_than_repetitions(run: RepeatRun, events: Seq<RepeatEvent>)
    requires
        is_course(run, events),
    ensures
        deliveries(events) + after_events(run, events).left == run.left,
    decreases events.len(),
{
    if events.len() > 0 {
        law_no_more_deliveries_than_repetitions(run, events.drop_last());
    }
}

/// A sticky key that landed in a terminal stays with it: every later step sends it there, until
/// the repeats are over or the terminal does not take it.
pub proof fn law_a_landed_key_stays_with_its_terminal(
    run: RepeatRun,
    events: Seq<RepeatEvent>,
    target: String,
)
    requires
        run.target == Some(target),
        is_course(run, events),
    ensures
        after_events(run, events).target == Some(target),
        events.len() > 0 ==> events.last() is Forwarded,
    decreases events.len(),
{
    if events.len() > 0 {
        law_a_landed_key_stays_with_its_terminal(run, events.drop_last(), target);
    }
}

/// A loose key is looked at afresh every time.
pub proof fn law_loose_keys_are_never_kept(run: RepeatRun, events: Seq<RepeatEvent>)
    requires
        !run.sticky,
        run.target is None,
        is_course(run, events),
    ensures
        after_events(run, events).target is None,
        !after_events(run, events).sticky,
    decreases events.len(),
{
    if events.len() > 0 {
        law_loose_keys_are_never_kept(run, events.drop_last());
    }
}

} // verus!
