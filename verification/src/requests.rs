//! API requests: which there are, whom they bind, and how they are routed.

use vstd::prelude::*;
use vstd::string::*;
use crate::session::AgentState;

verus! {

#[derive(Debug)]
pub struct PaneTarget {
    pub pane_id: String,
}

#[derive(Debug)]
pub struct TabTarget {
    pub tab_id: String,
}

#[derive(Debug)]
pub struct WorkspaceTarget {
    pub workspace_id: String,
}

#[derive(Debug)]
pub struct PaneReportAgentParams {
    pub pane_id: String,
    pub source: String,
    pub agent: String,
    pub state: AgentState,
    pub message: Option<String>,
    pub custom_status: Option<String>,
    pub seq: Option<u64>,
    pub agent_session_id: Option<String>,
    pub agent_session_path: Option<String>,
}

#[derive(Debug)]
pub struct PaneReportAgentSessionParams {
    pub pane_id: String,
    pub source: String,
    pub agent: String,
    pub seq: Option<u64>,
    pub agent_session_id: Option<String>,
    pub agent_session_path: Option<String>,
    pub session_start_source: Option<String>,
}

#[derive(Debug)]
pub struct ZynkMessageReceivedParams {
    pub pane_id: String,
    pub message_id: String,
    pub conversation_id: String,
    pub conversation_seq: i64,
    pub runtime_session_id: String,
    pub socket_namespace: String,
    pub receiver_seq: Option<i64>,
    pub timestamp: Option<String>,
    pub status: Option<String>,
    /// The session the receiver says it is in, as JSON text.
    pub receiver_agent_session: Option<String>,
}

/// What a request asks for. Requests that are neither bound to a pane nor routed in a way of their
/// own are not told apart.
#[derive(Debug)]
pub enum Method {
    PaneReportAgent(PaneReportAgentParams),
    PaneReportAgentSession(PaneReportAgentSessionParams),
    ZynkMessageReceived(ZynkMessageReceivedParams),
    PaneGet(PaneTarget),
    PaneFocus(PaneTarget),
    PaneClose(PaneTarget),
    PaneReleaseAgent(PaneTarget),
    PaneClearAgentAuthority(PaneTarget),
    PaneReportMetadata(PaneTarget),
    TabFocus(TabTarget),
    TabClose(TabTarget),
    WorkspaceFocus(WorkspaceTarget),
    WorkspaceClose(WorkspaceTarget),
    WorktreeCreate,
    WorktreeRemove,
    ServerStop,
    ServerLiveHandoff,
    /// Any other request.
    Other,
}

#[derive(Debug)]
pub struct Request {
    pub id: String,
    pub method: Method,
}

/// How a request is handled.
#[derive(Clone, Copy, Debug, PartialEq, Eq, Structural)]
pub struct Route {
    /// What is on screen is to be drawn again.
    pub changes_ui: bool,
    /// Git works on the request in the background and the reply comes later.
    pub deferred: bool,
    /// There is to be a workspace afterwards, whatever the request left.
    pub ensure_default_workspace: bool,
}

/// The name of a method that is bound to a pane, and the pane.
pub open spec fn bound_to(method: Method) -> Option<(Seq<char>, Seq<char>)> {
    match method {
        Method::PaneReportAgent(p) => Some(("pane.report_agent"@, p.pane_id@)),
        Method::PaneReportAgentSession(p) => Some(("pane.report_agent_session"@, p.pane_id@)),
        Method::ZynkMessageReceived(p) => Some(("zynk.message_received"@, p.pane_id@)),
        _ => None,
    }
}

/// The pane that the caller of a method has to be inside, or `None` for a method that is not bound
/// to a pane.
///
/// The requests that retire an identity are not: refusing them from outside would keep a dead
/// session alive. Nor are metadata reports, which touch presentation only.
pub fn pane_bound_target<'a>(method: &'a Method) -> (r: Option<(&'static str, &'a str)>)
    ensures
        match r {
            Some((name, pane)) => bound_to(*method) == Some((name@, pane@)),
            None => bound_to(*method) is None,
        },
{
    match method {
        Method::PaneReportAgent(params) => Some(("pane.report_agent", params.pane_id.as_str())),
        Method::PaneReportAgentSession(params) => Some(
            ("pane.report_agent_session", params.pane_id.as_str()),
        ),
        Method::ZynkMessageReceived(params) => Some(
            ("zynk.message_received", params.pane_id.as_str()),
        ),
        _ => None,
    }
}

/// Whether a request changes what is on screen. Recording a receipt does not; `others` says it of
/// any other request.
pub open spec fn touches_ui(method: Method, others: bool) -> bool {
    others && !(method is ZynkMessageReceived)
}

pub fn request_changes_ui(request: &Request, others: bool) -> (r: bool)
    ensures
        r == touches_ui(request.method, others),
{
    match &request.method {
        Method::ZynkMessageReceived(_) => false,
        _ => others,
    }
}

/// How a request is handled: those on worktrees are put off, and those that end the server leave no
/// workspace to be made.
pub open spec fn route_of(method: Method, others: bool) -> Route {
    Route {
        changes_ui: touches_ui(method, others),
        deferred: method is WorktreeCreate || method is WorktreeRemove,
        ensure_default_workspace: !(method is ServerStop || method is ServerLiveHandoff),
    }
}

/// How a request is handled. `others` has the same meaning as above.
pub fn route_request(request: &Request, others: bool) -> (r: Route)
    ensures
        r == route_of(request.method, others),
{
    let deferred = match &request.method {
        Method::WorktreeCreate => true,
        Method::WorktreeRemove => true,
        _ => false,
    };
    let ends = match &request.method {
        Method::ServerStop => true,
        Method::ServerLiveHandoff => true,
        _ => false,
    };
    Route { changes_ui: request_changes_ui(request, others), deferred, ensure_default_workspace: !ends }
}

/// Anything changed when a request was handled.
pub open spec fn anything_changed(
    route: Route,
    graphics_before: bool,
    expired: bool,
    deferred_changed: bool,
    graphics_after: bool,
    made_workspace: bool,
) -> bool {
    graphics_before || expired || route.changes_ui || (route.deferred && deferred_changed)
        || graphics_after || (route.ensure_default_workspace && made_workspace)
}

/// Whether anything changed when a request was handled: the graphics before it, metadata that
/// expired, the request itself, what it left of the graphics, and the workspace made afterwards.
pub fn message_changed(
    route: Route,
    graphics_before: bool,
    expired: bool,
    deferred_changed: bool,
    graphics_after: bool,
    made_workspace: bool,
) -> (r: bool)
    ensures
        r == anything_changed(
            route,
            graphics_before,
            expired,
            deferred_changed,
            graphics_after,
            made_workspace,
        ),
{
    graphics_before || expired || route.changes_ui || (route.deferred && deferred_changed)
        || graphics_after || (route.ensure_default_workspace && made_workspace)
}

// ---------------------------------------------------------------------------------------------
// Changes made from the interface, which go the way of requests
// ---------------------------------------------------------------------------------------------

pub fn runtime_workspace_focus(id: String, workspace_id: String) -> (r: Request)
    ensures
        r.id == id,
        r.method == Method::WorkspaceFocus(WorkspaceTarget { workspace_id }),
{
    Request { id, method: Method::WorkspaceFocus(WorkspaceTarget { workspace_id }) }
}

pub fn runtime_workspace_close(id: String, workspace_id: String) -> (r: Request)
    ensures
        r.id == id,
        r.method == Method::WorkspaceClose(WorkspaceTarget { workspace_id }),
{
    Request { id, method: Method::WorkspaceClose(WorkspaceTarget { workspace_id }) }
}

pub fn runtime_tab_focus(id: String, tab_id: String) -> (r: Request)
    ensures
        r.id == id,
        r.method == Method::TabFocus(TabTarget { tab_id }),
{
    Request { id, method: Method::TabFocus(TabTarget { tab_id }) }
}

pub fn runtime_tab_close(id: String, tab_id: String) -> (r: Request)
    ensures
        r.id == id,
        r.method == Method::TabClose(TabTarget { tab_id }),
{
    Request { id, method: Method::TabClose(TabTarget { tab_id }) }
}

pub fn runtime_pane_focus(id: String, pane_id: String) -> (r: Request)
    ensures
        r.id == id,
        r.method == Method::PaneFocus(PaneTarget { pane_id }),
{
    Request { id, method: Method::PaneFocus(PaneTarget { pane_id }) }
}

pub fn runtime_pane_close(id: String, pane_id: String) -> (r: Request)
    ensures
        r.id == id,
        r.method == Method::PaneClose(PaneTarget { pane_id }),
{
    Request { id, method: Method::PaneClose(PaneTarget { pane_id }) }
}

/// A method that is bound to a pane reports an identity or receipts a message, and nothing else is
/// bound.
pub proof fn law_only_identity_methods_are_bound(method: Method)
    ensures
        bound_to(method) is Some <==> (method is PaneReportAgent || method is PaneReportAgentSession
            || method is ZynkMessageReceived),
{
}

} // verus!
