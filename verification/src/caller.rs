//! The pane-tree binding for identity reports and receipts.
//!
//! A caller is accepted only when the peer the kernel reported for its connection is the pane's
//! PTY child or a descendant of it. Both ends of that comparison are `(pid, start time)` pairs,
//! never bare pids: a pid is reused, and a reaped pane root must not hand its subtree of trust to
//! whatever process the number goes to next. Every shape that cannot be placed is refused.

use vstd::prelude::*;
use vstd::string::*;
use crate::session::Session;
use crate::text::{decimal, decimal_text};

verus! {

/// The error code every refusal reports.
pub const CALLER_OUTSIDE_PANE: &'static str = "caller_outside_pane";

/// The longest parent chain that is followed. A longer one is a refusal, not a truncation.
pub const MAX_ANCESTRY_HOPS: usize = 64;

/// One process: its pid, its parent's pid, and when it started.
#[derive(Clone, Copy, Debug, PartialEq, Eq, Structural)]
pub struct ProcessEntry {
    pub pid: u32,
    pub parent: u32,
    pub start_time: u64,
}

/// A process identified beyond its pid.
#[derive(Clone, Copy, Debug, PartialEq, Eq, Structural)]
pub struct ProcessPrincipal {
    pub pid: u32,
    pub start_time: u64,
}

/// What the kernel reported of the process at the other end of a connection.
#[derive(Clone, Copy, Debug, PartialEq, Eq, Structural)]
pub struct PeerCredentials {
    pub pid: u32,
    pub uid: u32,
    pub start_time: Option<u64>,
}

/// Where a process stands relative to a pane's process tree.
#[derive(Clone, Copy, Debug, PartialEq, Eq, Structural)]
pub enum TreePlacement {
    Inside,
    CallerReplaced,
    PaneRootGone,
    PaneRootReplaced,
    Outside,
}

/// Why a caller was refused. Each becomes the same error code with a message that names the peer
/// pid and the pane, so a hook author can tell the shapes apart.
#[derive(Clone, Copy, Debug, PartialEq, Eq, Structural)]
pub enum CallerRejection {
    /// The connection reported no peer credentials.
    UnknownPeer,
    /// The connected process runs as another user.
    ForeignUid { peer_pid: u32, uid: u32 },
    /// The peer's start time could not be read when the connection was accepted.
    CallerUnidentified { peer_pid: u32 },
    /// The pid the peer connected with is gone, or now holds a different process.
    CallerReplaced { peer_pid: u32 },
    /// The pane exists but has no PTY child to be inside.
    PaneHasNoProcess { peer_pid: u32 },
    /// The pane's PTY child pid was published without a start time.
    PaneRootUnidentified { peer_pid: u32, root_pid: u32 },
    /// The pane's root process has been reaped.
    PaneRootGone { peer_pid: u32, root_pid: u32 },
    /// The pane's root pid holds a different process than the one the pane started.
    PaneRootReplaced { peer_pid: u32, root_pid: u32 },
    /// A real process, outside this pane's tree.
    OutsidePane { peer_pid: u32 },
}

/// What the process table says of `pid`: its parent and its start time. A later row of the same
/// pid replaces an earlier one.
pub open spec fn process_of(rows: Seq<ProcessEntry>, pid: u32) -> Option<(u32, u64)>
    decreases rows.len(),
{
    if rows.len() == 0 {
        None
    } else if rows.last().pid == pid {
        Some((rows.last().parent, rows.last().start_time))
    } else {
        process_of(rows.drop_last(), pid)
    }
}

/// The process table holds exactly the process that `who` names.
pub open spec fn is_alive(rows: Seq<ProcessEntry>, who: ProcessPrincipal) -> bool {
    process_of(rows, who.pid) matches Some((_, started)) && started == who.start_time
}

/// Following parents from `pid`, at most `hops` of them, arrives at `root`.
pub open spec fn descends(rows: Seq<ProcessEntry>, pid: u32, root: u32, hops: nat) -> bool
    decreases hops,
{
    pid == root || (hops > 0 && match process_of(rows, pid) {
        Some((parent, _)) => descends(rows, parent, root, (hops - 1) as nat),
        None => false,
    })
}

/// Each process of `chain` is the parent of the one before it.
pub open spec fn is_parent_chain(rows: Seq<ProcessEntry>, chain: Seq<u32>) -> bool {
    forall|i: int|
        0 <= i < chain.len() - 1 ==> (process_of(rows, #[trigger] chain[i]) matches Some((p, _))
            && p == chain[i + 1])
}

pub open spec fn placement(
    rows: Seq<ProcessEntry>,
    caller: ProcessPrincipal,
    root: ProcessPrincipal,
) -> TreePlacement {
    if caller.pid == 0 || root.pid == 0 {
        TreePlacement::Outside
    } else if !is_alive(rows, caller) {
        TreePlacement::CallerReplaced
    } else if process_of(rows, root.pid) is None {
        TreePlacement::PaneRootGone
    } else if !is_alive(rows, root) {
        TreePlacement::PaneRootReplaced
    } else if descends(rows, caller.pid, root.pid, MAX_ANCESTRY_HOPS as nat) {
        TreePlacement::Inside
    } else {
        TreePlacement::Outside
    }
}

/// The whole rule: `None` accepts the caller.
pub open spec fn caller_refusal(
    peer: PeerCredentials,
    server_uid: u32,
    pane_root: Option<(u32, Option<u64>)>,
    rows: Seq<ProcessEntry>,
) -> Option<CallerRejection> {
    let peer_pid = peer.pid;
    if peer.uid != server_uid {
        Some(CallerRejection::ForeignUid { peer_pid, uid: peer.uid })
    } else {
        match (peer.start_time, pane_root) {
            (None, _) => Some(CallerRejection::CallerUnidentified { peer_pid }),
            (Some(_), None) => Some(CallerRejection::PaneHasNoProcess { peer_pid }),
            (Some(_), Some((root_pid, None))) => Some(
                CallerRejection::PaneRootUnidentified { peer_pid, root_pid },
            ),
            (Some(start), Some((root_pid, Some(root_start)))) => match placement(
                rows,
                (ProcessPrincipal { pid: peer_pid, start_time: start }),
                (ProcessPrincipal { pid: root_pid, start_time: root_start }),
            ) {
                TreePlacement::Inside => None,
                TreePlacement::CallerReplaced => Some(CallerRejection::CallerReplaced { peer_pid }),
                TreePlacement::PaneRootGone => Some(
                    CallerRejection::PaneRootGone { peer_pid, root_pid },
                ),
                TreePlacement::PaneRootReplaced => Some(
                    CallerRejection::PaneRootReplaced { peer_pid, root_pid },
                ),
                TreePlacement::Outside => Some(CallerRejection::OutsidePane { peer_pid }),
            },
        }
    }
}

impl CallerRejection {
    pub open spec fn spec_message(self, pane: Seq<char>) -> Seq<char> {
        match self {
            CallerRejection::UnknownPeer =>
                "caller could not be identified: the connection reported no peer credentials, so it cannot be placed inside pane "@
                + pane + " (ADR 0014)"@,
            CallerRejection::ForeignUid { peer_pid, uid } => "caller pid "@ + decimal(
                peer_pid as nat,
            ) + " runs as uid "@ + decimal(uid as nat)
                + ", not as this server's user, so it cannot report for pane "@ + pane
                + " (ADR 0014)"@,
            CallerRejection::CallerUnidentified { peer_pid } => "caller pid "@ + decimal(
                peer_pid as nat,
            )
                + " had already exited when its connection was accepted, so no process was bound to it and it cannot be placed inside pane "@
                + pane + " (ADR 0014)"@,
            CallerRejection::CallerReplaced { peer_pid } => "caller pid "@ + decimal(
                peer_pid as nat,
            )
                + " no longer holds the process that opened this connection, so it cannot be placed inside pane "@
                + pane
                + ": a pid is reused, and only the process that connected may report (ADR 0014)"@,
            CallerRejection::PaneHasNoProcess { peer_pid } => "pane "@ + pane
                + " has no running process, so caller pid "@ + decimal(peer_pid as nat)
                + " cannot be inside it (ADR 0014)"@,
            CallerRejection::PaneRootUnidentified { peer_pid, root_pid } => "pane "@ + pane
                + "'s process "@ + decimal(root_pid as nat)
                + " has no recorded start time, so it is a bare pid rather than an identity and caller pid "@
                + decimal(peer_pid as nat) + " cannot be placed inside it (ADR 0014)"@,
            CallerRejection::PaneRootGone { peer_pid, root_pid } => "pane "@ + pane
                + "'s process "@ + decimal(root_pid as nat) + " has exited, so caller pid "@
                + decimal(peer_pid as nat) + " cannot be inside its process tree (ADR 0014)"@,
            CallerRejection::PaneRootReplaced { peer_pid, root_pid } => "pane "@ + pane
                + "'s process "@ + decimal(root_pid as nat)
                + " has exited and that pid now belongs to another process, so caller pid "@
                + decimal(peer_pid as nat)
                + " cannot be inside the pane's tree; a reused pid does not inherit the pane it once rooted (ADR 0014)"@,
            CallerRejection::OutsidePane { peer_pid } => "caller pid "@ + decimal(peer_pid as nat)
                + " is not inside pane "@ + pane
                + "'s process tree; identity reports and receipts are accepted only from the target pane (ADR 0014)"@,
        }
    }

    pub fn message(self, pane_id: &str) -> (r: String)
        ensures
            r@ == self.spec_message(pane_id@),
    {
        match self {
            CallerRejection::UnknownPeer => {
                let mut m =
                    "caller could not be identified: the connection reported no peer credentials, so it cannot be placed inside pane ".to_owned();
                m.append(pane_id);
                m.append(" (ADR 0014)");
                m
            },
            CallerRejection::ForeignUid { peer_pid, uid } => {
                let mut m = "caller pid ".to_owned();
                m.append(decimal_text(peer_pid as u64).as_str());
                m.append(" runs as uid ");
                m.append(decimal_text(uid as u64).as_str());
                m.append(", not as this server's user, so it cannot report for pane ");
                m.append(pane_id);
                m.append(" (ADR 0014)");
                m
            },
            CallerRejection::CallerUnidentified { peer_pid } => {
                let mut m = "caller pid ".to_owned();
                m.append(decimal_text(peer_pid as u64).as_str());
                m.append(
                    " had already exited when its connection was accepted, so no process was bound to it and it cannot be placed inside pane ",
                );
                m.append(pane_id);
                m.append(" (ADR 0014)");
                m
            },
            CallerRejection::CallerReplaced { peer_pid } => {
                let mut m = "caller pid ".to_owned();
                m.append(decimal_text(peer_pid as u64).as_str());
                m.append(
                    " no longer holds the process that opened this connection, so it cannot be placed inside pane ",
                );
                m.append(pane_id);
                m.append(
                    ": a pid is reused, and only the process that connected may report (ADR 0014)",
                );
                m
            },
            CallerRejection::PaneHasNoProcess { peer_pid } => {
                let mut m = "pane ".to_owned();
                m.append(pane_id);
                m.append(" has no running process, so caller pid ");
                m.append(decimal_text(peer_pid as u64).as_str());
                m.append(" cannot be inside it (ADR 0014)");
                m
            },
            CallerRejection::PaneRootUnidentified { peer_pid, root_pid } => {
                let mut m = "pane ".to_owned();
                m.append(pane_id);
                m.append("'s process ");
                m.append(decimal_text(root_pid as u64).as_str());
                m.append(
                    " has no recorded start time, so it is a bare pid rather than an identity and caller pid ",
                );
                m.append(decimal_text(peer_pid as u64).as_str());
                m.append(" cannot be placed inside it (ADR 0014)");
                m
            },
            CallerRejection::PaneRootGone { peer_pid, root_pid } => {
                let mut m = "pane ".to_owned();
                m.append(pane_id);
                m.append("'s process ");
                m.append(decimal_text(root_pid as u64).as_str());
                m.append(" has exited, so caller pid ");
                m.append(decimal_text(peer_pid as u64).as_str());
                m.append(" cannot be inside its process tree (ADR 0014)");
                m
            },
            CallerRejection::PaneRootReplaced { peer_pid, root_pid } => {
                let mut m = "pane ".to_owned();
                m.append(pane_id);
                m.append("'s process ");
                m.append(decimal_text(root_pid as u64).as_str());
                m.append(" has exited and that pid now belongs to another process, so caller pid ");
                m.append(decimal_text(peer_pid as u64).as_str());
                m.append(
                    " cannot be inside the pane's tree; a reused pid does not inherit the pane it once rooted (ADR 0014)",
                );
                m
            },
            CallerRejection::OutsidePane { peer_pid } => {
                let mut m = "caller pid ".to_owned();
                m.append(decimal_text(peer_pid as u64).as_str());
                m.append(" is not inside pane ");
                m.append(pane_id);
                m.append(
                    "'s process tree; identity reports and receipts are accepted only from the target pane (ADR 0014)",
                );
                m
            },
        }
    }
}

fn look_up(rows: &[ProcessEntry], pid: u32) -> (r: Option<(u32, u64)>)
    ensures
        r == process_of(rows@, pid),
{
    let mut n: usize = rows.len();
    proof {
        assert(rows@.take(n as int) =~= rows@);
    }
    while n > 0
        invariant
            n <= rows@.len(),
            process_of(rows@, pid) == process_of(rows@.take(n as int), pid),
        decreases n,
    {
        let row = rows[n - 1];
        proof {
            let head = rows@.take(n as int);
            assert(head.last() == rows@[n - 1]);
            assert(head.drop_last() =~= rows@.take(n - 1));
        }
        if row.pid == pid {
            return Some((row.parent, row.start_time));
        }
        n = n - 1;
    }
    None
}

/// Place `caller` relative to the tree under `root`, by what the process table says of both.
pub fn place_process_in_tree(
    caller: ProcessPrincipal,
    root: ProcessPrincipal,
    rows: &[ProcessEntry],
) -> (r: TreePlacement)
    ensures
        r == placement(rows@, caller, root),
{
    if caller.pid == 0 || root.pid == 0 {
        return TreePlacement::Outside;
    }
    match look_up(rows, caller.pid) {
        Some((_, started)) => {
            if started != caller.start_time {
                return TreePlacement::CallerReplaced;
            }
        },
        None => {
            return TreePlacement::CallerReplaced;
        },
    }
    match look_up(rows, root.pid) {
        Some((_, started)) => {
            if started != root.start_time {
                return TreePlacement::PaneRootReplaced;
            }
        },
        None => {
            return TreePlacement::PaneRootGone;
        },
    }
    let mut pid: u32 = caller.pid;
    let mut hops: usize = MAX_ANCESTRY_HOPS;
    loop
        invariant
            hops <= MAX_ANCESTRY_HOPS,
            descends(rows@, caller.pid, root.pid, MAX_ANCESTRY_HOPS as nat) == descends(
                rows@,
                pid,
                root.pid,
                hops as nat,
            ),
            caller.pid != 0,
            root.pid != 0,
            is_alive(rows@, caller),
            is_alive(rows@, root),
        decreases hops,
    {
        if pid == root.pid {
            return TreePlacement::Inside;
        }
        if hops == 0 {
            return TreePlacement::Outside;
        }
        match look_up(rows, pid) {
            Some((parent, _)) => {
                pid = parent;
                hops = hops - 1;
            },
            None => {
                return TreePlacement::Outside;
            },
        }
    }
}

/// The whole rule, over the process table.
///
/// `pane_root` is what the pane published: its PTY child pid, and the start time captured when
/// that pid was published. A pid published without one is a refusal rather than a licence to match
/// the pid alone.
pub fn place_caller_in_pane_tree(
    peer: PeerCredentials,
    server_uid: u32,
    pane_root: Option<(u32, Option<u64>)>,
    rows: &[ProcessEntry],
) -> (r: Result<(), CallerRejection>)
    ensures
        r == match caller_refusal(peer, server_uid, pane_root, rows@) {
            Some(refusal) => Err::<(), CallerRejection>(refusal),
            None => Ok(()),
        },
{
    let peer_pid: u32 = peer.pid;
    if peer.uid != server_uid {
        return Err(CallerRejection::ForeignUid { peer_pid, uid: peer.uid });
    }
    let peer_start_time: u64 = match peer.start_time {
        Some(started) => started,
        None => {
            return Err(CallerRejection::CallerUnidentified { peer_pid });
        },
    };
    let (root_pid, root_start_time): (u32, Option<u64>) = match pane_root {
        Some(root) => root,
        None => {
            return Err(CallerRejection::PaneHasNoProcess { peer_pid });
        },
    };
    let root_start_time: u64 = match root_start_time {
        Some(started) => started,
        None => {
            return Err(CallerRejection::PaneRootUnidentified { peer_pid, root_pid });
        },
    };
    match place_process_in_tree(
        ProcessPrincipal { pid: peer_pid, start_time: peer_start_time },
        ProcessPrincipal { pid: root_pid, start_time: root_start_time },
        rows,
    ) {
        TreePlacement::Inside => Ok(()),
        TreePlacement::CallerReplaced => Err(CallerRejection::CallerReplaced { peer_pid }),
        TreePlacement::PaneRootGone => Err(CallerRejection::PaneRootGone { peer_pid, root_pid }),
        TreePlacement::PaneRootReplaced => Err(
            CallerRejection::PaneRootReplaced { peer_pid, root_pid },
        ),
        TreePlacement::Outside => Err(CallerRejection::OutsidePane { peer_pid }),
    }
}

/// Who sent a request, as far as the connection tells.
#[derive(Clone, Copy, Debug, PartialEq, Eq, Structural)]
pub struct ApiCaller {
    pub peer: Option<PeerCredentials>,
    /// The connection was accepted as one from inside the pane. Only a debug build looks at this.
    pub trusted_as_pane_child: bool,
}

/// Which build of the server is running. A debug build can be told to trust its callers, so that
/// tests can report for a pane from outside it; a release build cannot.
#[derive(Clone, Copy, Debug, PartialEq, Eq, Structural)]
pub enum Build {
    Debug,
    Release,
}

/// The process a pane runs, where it runs one.
pub open spec fn pane_root_of(session: Session, ws: int, pane: u64) -> Option<(u32, Option<u64>)> {
    match session.spec_terminal_of(ws, pane) {
        Some(t) => match t.runtime {
            Some(r) => r.child,
            None => None,
        },
        None => None,
    }
}

/// Why a caller may not report for a pane: `None` where it may.
pub open spec fn binding_refusal(
    session: Session,
    pane_id: Seq<char>,
    caller: ApiCaller,
    build: Build,
    server_uid: u32,
    rows: Seq<ProcessEntry>,
) -> Option<CallerRejection> {
    match session.spec_parse_pane_id(pane_id) {
        None => None,
        Some((ws, pane)) => if build == Build::Debug && caller.trusted_as_pane_child {
            None
        } else {
            match caller.peer {
                None => Some(CallerRejection::UnknownPeer),
                Some(peer) => caller_refusal(
                    peer,
                    server_uid,
                    pane_root_of(session, ws, pane),
                    rows,
                ),
            }
        },
    }
}

/// Whether a caller is a process inside a pane's tree.
///
/// A pane id that leads nowhere is accepted on purpose: whatever the request asks for answers it
/// with its own error, which is more accurate and no weaker, for nothing is granted either way.
pub fn caller_is_inside_pane(
    session: &Session,
    pane_id: &str,
    caller: ApiCaller,
    build: Build,
    server_uid: u32,
    rows: &[ProcessEntry],
) -> (r: Result<(), CallerRejection>)
    ensures
        r == match binding_refusal(*session, pane_id@, caller, build, server_uid, rows@) {
            Some(refusal) => Err::<(), CallerRejection>(refusal),
            None => Ok(()),
        },
{
    let (ws, pane): (usize, u64) = match session.parse_pane_id(pane_id) {
        Some(found) => found,
        None => {
            return Ok(());
        },
    };
    if build == Build::Debug && caller.trusted_as_pane_child {
        return Ok(());
    }
    let peer = match caller.peer {
        Some(peer) => peer,
        None => {
            return Err(CallerRejection::UnknownPeer);
        },
    };
    let pane_root: Option<(u32, Option<u64>)> = match session.terminal_of(ws, pane) {
        Some(terminal) => match &terminal.runtime {
            Some(runtime) => runtime.child,
            None => None,
        },
        None => None,
    };
    place_caller_in_pane_tree(peer, server_uid, pane_root, rows)
}

/// In a release build nothing but the process tree speaks for a caller: whether it was accepted as
/// one from inside the pane makes no difference.
pub proof fn law_a_release_build_trusts_nobody(
    session: Session,
    pane_id: Seq<char>,
    peer: Option<PeerCredentials>,
    server_uid: u32,
    rows: Seq<ProcessEntry>,
)
    ensures
        binding_refusal(
            session,
            pane_id,
            ApiCaller { peer, trusted_as_pane_child: true },
            Build::Release,
            server_uid,
            rows,
        ) == binding_refusal(
            session,
            pane_id,
            ApiCaller { peer, trusted_as_pane_child: false },
            Build::Release,
            server_uid,
            rows,
        ),
{
}

/// A caller is accepted exactly when it runs as the server's user, both ends were identified, both
/// identities still hold their pids, and the caller descends from the pane's root.
pub proof fn law_accepted_exactly_inside_the_tree(
    peer: PeerCredentials,
    server_uid: u32,
    pane_root: Option<(u32, Option<u64>)>,
    rows: Seq<ProcessEntry>,
)
    ensures
        caller_refusal(peer, server_uid, pane_root, rows) is None <==> {
            &&& peer.uid == server_uid
            &&& peer.pid != 0
            &&& peer.start_time matches Some(started)
            &&& is_alive(rows, ProcessPrincipal { pid: peer.pid, start_time: started })
            &&& pane_root matches Some((root_pid, Some(root_started)))
            &&& root_pid != 0
            &&& is_alive(rows, ProcessPrincipal { pid: root_pid, start_time: root_started })
            &&& descends(rows, peer.pid, root_pid, MAX_ANCESTRY_HOPS as nat)
        },
{
}

/// A process descends from another exactly when a chain of parents, no longer than the bound,
/// leads from it there.
pub proof fn law_descent_is_a_parent_chain(
    rows: Seq<ProcessEntry>,
    pid: u32,
    root: u32,
    hops: nat,
)
    ensures
        descends(rows, pid, root, hops) <==> exists|chain: Seq<u32>|
            #![trigger is_parent_chain(rows, chain)]
            0 < chain.len() <= hops + 1 && chain[0] == pid && chain.last() == root
                && is_parent_chain(rows, chain),
    decreases hops,
{
    if descends(rows, pid, root, hops) {
        if pid == root {
            let chain = seq![pid];
            assert(is_parent_chain(rows, chain));
        } else {
            let parent = process_of(rows, pid)->Some_0.0;
            law_descent_is_a_parent_chain(rows, parent, root, (hops - 1) as nat);
            let tail = choose|chain: Seq<u32>|
                #![trigger is_parent_chain(rows, chain)]
                0 < chain.len() <= hops && chain[0] == parent && chain.last() == root
                    && is_parent_chain(rows, chain);
            let chain = seq![pid] + tail;
            assert(chain.last() == tail.last());
            assert forall|i: int| 0 <= i < chain.len() - 1 implies (process_of(
                rows,
                #[trigger] chain[i],
            ) matches Some((p, _)) && p == chain[i + 1]) by {
                if i > 0 {
                    assert(chain[i] == tail[i - 1]);
                    assert(chain[i + 1] == tail[i]);
                }
            }
            assert(is_parent_chain(rows, chain));
        }
    }
    if exists|chain: Seq<u32>|
        #![trigger is_parent_chain(rows, chain)]
        0 < chain.len() <= hops + 1 && chain[0] == pid && chain.last() == root && is_parent_chain(
            rows,
            chain,
        ) {
        let chain = choose|chain: Seq<u32>|
            #![trigger is_parent_chain(rows, chain)]
            0 < chain.len() <= hops + 1 && chain[0] == pid && chain.last() == root
                && is_parent_chain(rows, chain);
        if chain.len() > 1 {
            let tail = chain.drop_first();
            assert(process_of(rows, chain[0]) is Some);
            let parent = process_of(rows, pid)->Some_0.0;
            assert(tail[0] == chain[1] == parent);
            assert forall|i: int| 0 <= i < tail.len() - 1 implies (process_of(
                rows,
                #[trigger] tail[i],
            ) matches Some((p, _)) && p == tail[i + 1]) by {
                assert(tail[i] == chain[i + 1]);
                assert(tail[i + 1] == chain[i + 2]);
            }
            assert(is_parent_chain(rows, tail));
            law_descent_is_a_parent_chain(rows, parent, root, (hops - 1) as nat);
        }
    }
}

/// A pid that changed hands inherits nothing: when the process table holds another process under
/// the pane root's pid, or none, no caller is placed inside the pane.
pub proof fn law_a_reused_root_admits_nobody(
    peer: PeerCredentials,
    server_uid: u32,
    root: ProcessPrincipal,
    rows: Seq<ProcessEntry>,
)
    requires
        !is_alive(rows, root),
    ensures
        caller_refusal(peer, server_uid, Some((root.pid, Some(root.start_time))), rows) is Some,
{
}

} // verus!
