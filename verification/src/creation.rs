//! Where new terminals start, and how a new workspace is asked for.

use vstd::prelude::*;
use vstd::string::*;
use crate::session::{Mode, Session};
use crate::tabs::focused_follow;
use crate::text::{chars_of, clone_opt_text, opt_view};

verus! {

/// Where a new terminal starts when nothing is asked for.
#[derive(Debug)]
pub enum CwdPolicy {
    /// Where the terminal that has the focus is.
    Follow,
    Home,
    /// Where the server was started.
    Current,
    /// At a path of its own, with the home directory already filled in.
    Path(String),
}

/// A directory that may be started in, and whether it is one.
#[derive(Debug)]
pub struct Candidate {
    pub path: String,
    pub is_dir: bool,
}

/// Where a new workspace starts.
#[derive(Debug)]
pub struct WorkspacePlan {
    /// The directory asked for.
    pub cwd: Option<String>,
    /// The directory to follow where none is asked for.
    pub follow: Option<String>,
}

/// What a dialog for a new workspace remembers of where it is to start.
#[derive(Debug)]
pub enum PendingCwd {
    /// To be looked up again from the workspace it was asked in.
    Follow { source_workspace_id: Option<String>, suggested_cwd: String },
    Resolved(String),
}

/// How a new workspace is asked for from the interface.
#[derive(Debug)]
pub enum NewWorkspaceStep {
    /// Ask for a name first.
    AskForName(PendingCwd),
    /// Create it, focused.
    Create,
}

pub open spec fn is_absolute(path: Seq<char>) -> bool {
    path.len() > 0 && path[0] == '/'
}

/// The path of a candidate that can be started in.
pub open spec fn usable(c: Option<Candidate>) -> Option<Seq<char>> {
    match c {
        Some(c) => if is_absolute(c.path@) && c.is_dir {
            Some(c.path@)
        } else {
            None
        },
        None => None,
    }
}

pub open spec fn path_of(c: Option<Candidate>) -> Option<Seq<char>> {
    match c {
        Some(c) => Some(c.path@),
        None => None,
    }
}

pub open spec fn either(a: Option<Seq<char>>, b: Option<Seq<char>>) -> Option<Seq<char>> {
    match a {
        Some(x) => Some(x),
        None => b,
    }
}

pub open spec fn or_root(path: Option<Seq<char>>) -> Seq<char> {
    match path {
        Some(p) => p,
        None => "/"@,
    }
}

/// Where a new terminal starts. To follow, only a directory that is there will do: the one to
/// follow, else home, else the server's own, else the root.
pub open spec fn start_of(
    policy: CwdPolicy,
    follow: Option<Candidate>,
    home: Option<Candidate>,
    current: Option<Candidate>,
) -> Seq<char> {
    match policy {
        CwdPolicy::Follow => or_root(either(usable(follow), either(usable(home), usable(current)))),
        CwdPolicy::Home => or_root(either(path_of(home), path_of(current))),
        CwdPolicy::Current => or_root(path_of(current)),
        CwdPolicy::Path(path) => path@,
    }
}

fn usable_directory(c: &Option<Candidate>) -> (r: Option<String>)
    ensures
        opt_view(r) == usable(*c),
{
    match c {
        Some(c) => {
            let chars = chars_of(c.path.as_str());
            if chars.len() > 0 && chars[0] == '/' && c.is_dir {
                Some(c.path.clone())
            } else {
                None
            }
        },
        None => None,
    }
}

fn any_path(c: &Option<Candidate>) -> (r: Option<String>)
    ensures
        opt_view(r) == path_of(*c),
{
    match c {
        Some(c) => Some(c.path.clone()),
        None => None,
    }
}

/// Where a new terminal starts.
pub fn resolve_new_terminal_cwd(
    policy: &CwdPolicy,
    follow: &Option<Candidate>,
    home: &Option<Candidate>,
    current: &Option<Candidate>,
) -> (r: String)
    ensures
        r@ == start_of(*policy, *follow, *home, *current),
{
    let found: Option<String> = match policy {
        CwdPolicy::Follow => match usable_directory(follow) {
            Some(path) => Some(path),
            None => match usable_directory(home) {
                Some(path) => Some(path),
                None => usable_directory(current),
            },
        },
        CwdPolicy::Home => match any_path(home) {
            Some(path) => Some(path),
            None => any_path(current),
        },
        CwdPolicy::Current => any_path(current),
        CwdPolicy::Path(path) => Some(path.clone()),
    };
    match found {
        Some(path) => path,
        None => "/".to_owned(),
    }
}

/// What a request for a new workspace asks for.
pub open spec fn workspace_create_planned(
    session: Session,
    cwd: Option<String>,
    r: WorkspacePlan,
) -> bool {
    &&& r.cwd == cwd
    &&& r.follow == match (cwd, session.spec_creation_source()) {
        (None, Some(ws)) => session.spec_creation_cwd(ws as int),
        _ => None,
    }
}

/// What is done first when a workspace is made from the interface.
pub open spec fn is_first_step(
    session: Session,
    prompt_for_name: bool,
    policy: CwdPolicy,
    cwd: String,
    r: NewWorkspaceStep,
) -> bool {
    match r {
        NewWorkspaceStep::Create => !prompt_for_name,
        NewWorkspaceStep::AskForName(PendingCwd::Resolved(at)) => prompt_for_name && !(
        policy is Follow) && at == cwd,
        NewWorkspaceStep::AskForName(
            PendingCwd::Follow { source_workspace_id, suggested_cwd },
        ) => {
            &&& prompt_for_name
            &&& policy is Follow
            &&& suggested_cwd == cwd
            &&& source_workspace_id == match session.spec_creation_source() {
                Some(ws) if ws < session.workspaces@.len() => Some(
                    session.workspaces@[ws as int].id,
                ),
                _ => None,
            }
        },
    }
}

/// `new` is `old` after a workspace was made from the interface.
pub open spec fn shown_after_create(
    old: Session,
    new: Session,
) -> bool {
    new == (Session {
        mode: if old.active is Some {
            Mode::Terminal
        } else {
            Mode::Navigate
        },
        ..old
    })
}

impl Session {
    /// The workspace a new one is created from: the selected one while navigating, else the active
    /// one, else the selected one.
    pub open spec fn spec_creation_source(&self) -> Option<usize> {
        let selected = if self.selected < self.workspaces@.len() {
            Some(self.selected)
        } else {
            None
        };
        if self.mode == Mode::Navigate && selected is Some {
            selected
        } else if self.active is Some {
            self.active
        } else {
            selected
        }
    }

    pub fn workspace_creation_source(&self) -> (r: Option<usize>)
        ensures
            r == self.spec_creation_source(),
    {
        let selectable = self.selected < self.workspaces.len();
        if self.mode == Mode::Navigate && selectable {
            return Some(self.selected);
        }
        match self.active {
            Some(active) => Some(active),
            None => if selectable {
                Some(self.selected)
            } else {
                None
            },
        }
    }

    /// Where a pane of a workspace is.
    pub fn follow_cwd_for_pane_in_workspace(&self, ws: usize, pane: u64) -> (r: Option<String>)
        ensures
            r == match self.spec_terminal_of(ws as int, pane) {
                Some(t) => t.spec_follow_cwd(),
                None => None,
            },
    {
        match self.terminal_of(ws, pane) {
            Some(terminal) => terminal.follow_cwd(),
            None => None,
        }
    }

    /// Where a workspace was started.
    pub fn seed_cwd_from_workspace(&self, ws: usize) -> (r: Option<String>)
        ensures
            r == if ws < self.workspaces@.len() {
                self.workspaces@[ws as int].identity_cwd
            } else {
                None
            },
    {
        if ws < self.workspaces.len() {
            clone_opt_text(&self.workspaces[ws].identity_cwd)
        } else {
            None
        }
    }

    /// Where a workspace created from another starts: where its focused pane is, else where it was
    /// started itself.
    pub open spec fn spec_creation_cwd(&self, ws: int) -> Option<String> {
        if focused_follow(*self, ws) is Some {
            focused_follow(*self, ws)
        } else if 0 <= ws < self.workspaces@.len() {
            self.workspaces@[ws].identity_cwd
        } else {
            None
        }
    }

    pub fn workspace_creation_cwd(&self, ws: usize) -> (r: Option<String>)
        ensures
            r == self.spec_creation_cwd(ws as int),
    {
        let focused = self.focused_pane_cwd_in_workspace(ws);
        if focused.is_some() {
            focused
        } else {
            self.seed_cwd_from_workspace(ws)
        }
    }

    /// Where a new workspace starts: where it was asked to, else the directory to follow.
    pub fn plan_workspace_create(&self, cwd: &Option<String>) -> (r: WorkspacePlan)
        ensures
            workspace_create_planned(*self, *cwd, r),
    {
        match cwd {
            Some(cwd) => WorkspacePlan { cwd: Some(cwd.clone()), follow: None },
            None => WorkspacePlan {
                cwd: None,
                follow: match self.workspace_creation_source() {
                    Some(ws) => self.workspace_creation_cwd(ws),
                    None => None,
                },
            },
        }
    }

    /// How a new workspace is asked for from the interface, `cwd` being where it would start now.
    pub fn begin_tui_workspace_create(
        &self,
        prompt_for_name: bool,
        policy: &CwdPolicy,
        cwd: String,
    ) -> (r: NewWorkspaceStep)
        ensures
            is_first_step(*self, prompt_for_name, *policy, cwd, r),
    {
        if !prompt_for_name {
            return NewWorkspaceStep::Create;
        }
        match policy {
            CwdPolicy::Follow => {
                let source_workspace_id: Option<String> = match self.workspace_creation_source() {
                    Some(ws) => if ws < self.workspaces.len() {
                        Some(self.workspaces[ws].id.clone())
                    } else {
                        None
                    },
                    None => None,
                };
                NewWorkspaceStep::AskForName(
                    PendingCwd::Follow { source_workspace_id, suggested_cwd: cwd },
                )
            },
            _ => NewWorkspaceStep::AskForName(PendingCwd::Resolved(cwd)),
        }
    }

    /// Settle the mode after a workspace was created from the interface, or could not be.
    pub fn after_tui_workspace_create(&mut self)
        ensures
            shown_after_create(*old(self), *final(self)),
    {
        self.mode = if self.active.is_some() {
            Mode::Terminal
        } else {
            Mode::Navigate
        };
    }
}

/// Following never leads to a place that is no directory, short of the root.
pub proof fn law_following_leads_to_directories(
    follow: Option<Candidate>,
    home: Option<Candidate>,
    current: Option<Candidate>,
)
    ensures
        ({
            let at = start_of(CwdPolicy::Follow, follow, home, current);
            at == "/"@ || usable(follow) == Some(at) || usable(home) == Some(at) || usable(current)
                == Some(at)
        }),
{
}

} // verus!
