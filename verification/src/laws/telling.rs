//! Laws on what listeners are told, on the tokens that expire, and on titles.

use vstd::prelude::*;
use crate::info::{has_info, is_workspace_info, status_of};
use crate::laws::session::lemma_filtered;
use crate::metadata::{expiry, MetadataReport, Token, TokenStore};
use crate::laws::metadata::law_the_next_expiry_is_the_first;
use crate::response::{workspace_missing, Refusal};
use crate::search::lemma_first_where;
use crate::session::{
    next_revision, terminal_at, workspace_at, Event, Pane, Session, Tab, Terminal, Workspace,
};
use crate::text::opt_view;
use crate::titles::{
    after_observations, all_found, are_observations, is_configured_title, is_observed, is_shown,
    mentions_hostname, mentions_terminal_title, observed, observed_panes, observed_tabs, observes,
    raw_differs, retitled, stripped_differs, titles_synced, to_publish, AgentRows, AgentToken,
    Observation, TitleChanges, TitlePart, WindowTitle,
};
use crate::updates::{
    all_reconciled, flagged, flagged_panes, flagged_positions, flagged_tabs, is_flagged,
    losing_terminals, losing_workspaces, pane_update_told, panes_told, refs, tells_pane, tells_status,
    tells_workspace, with_info, workspaces_told, PaneRef,
};
use crate::workspaces::{loses_tokens, metadata_reported, terminals_expiry, workspaces_expiry};

verus! {

proof fn lemma_joined<A>(a: Seq<A>, b: Seq<A>, x: A)
    ensures
        (a + b).contains(x) <==> a.contains(x) || b.contains(x),
{
    let all = a + b;
    if a.contains(x) {
        let k = choose|k: int| 0 <= k < a.len() && a[k] == x;
        assert(all[k] == x);
    }
    if b.contains(x) {
        let k = choose|k: int| 0 <= k < b.len() && b[k] == x;
        assert(all[a.len() + k] == x);
    }
    if all.contains(x) {
        let k = choose|k: int| 0 <= k < all.len() && all[k] == x;
        if k < a.len() {
            assert(a[k] == x);
        } else {
            assert(b[k - a.len()] == x);
        }
    }
}

proof fn lemma_pushed<A>(a: Seq<A>, b: A, x: A)
    ensures
        a.push(b).contains(x) <==> a.contains(x) || b == x,
{
    let all = a.push(b);
    if a.contains(x) {
        let k = choose|k: int| 0 <= k < a.len() && a[k] == x;
        assert(all[k] == x);
    }
    assert(all[a.len() as int] == b);
    if all.contains(x) {
        let k = choose|k: int| 0 <= k < all.len() && all[k] == x;
        if k < a.len() {
            assert(a[k] == x);
        }
    }
}

proof fn lemma_all_but_last<A>(s: Seq<A>, x: A)
    requires
        s.len() > 0,
    ensures
        s.contains(x) <==> s.drop_last().contains(x) || s.last() == x,
{
    lemma_pushed(s.drop_last(), s.last(), x);
    assert(s.drop_last().push(s.last()) =~= s);
}

// ---------------------------------------------------------------------------------------------
// Who is told of
// ---------------------------------------------------------------------------------------------

/// There is a pane of this id among the panes of the tabs, and its terminal is flagged.
pub open spec fn has_flagged_pane(
    session: Session,
    ws: int,
    tabs: Seq<Tab>,
    flags: Seq<bool>,
    pane: u64,
) -> bool {
    exists|t: int, i: int|
        0 <= t < tabs.len() && 0 <= i < tabs[t].panes@.len() && (#[trigger] tabs[t].panes@[i]).id
            == pane && is_flagged(session, ws, tabs[t].panes@[i], flags)
}

proof fn lemma_flagged_panes(
    session: Session,
    ws: int,
    panes: Seq<Pane>,
    flags: Seq<bool>,
    x: PaneRef,
)
    ensures
        flagged_panes(session, ws, panes, flags).contains(x) <==> x.0 == ws && exists|i: int|
            0 <= i < panes.len() && (#[trigger] panes[i]).id == x.1 && is_flagged(
                session,
                ws,
                panes[i],
                flags,
            ),
    decreases panes.len(),
{
    if panes.len() > 0 {
        let head = panes.drop_last();
        let last = panes.last();
        let n = panes.len() - 1;
        lemma_flagged_panes(session, ws, head, flags, x);
        lemma_pushed(flagged_panes(session, ws, head, flags), (ws, last.id), x);
        assert(forall|i: int| 0 <= i < n ==> #[trigger] head[i] == panes[i]);
        assert(panes[n] == last);
        if exists|i: int|
            0 <= i < head.len() && (#[trigger] head[i]).id == x.1 && is_flagged(
                session,
                ws,
                head[i],
                flags,
            ) {
            let i = choose|i: int|
                0 <= i < head.len() && (#[trigger] head[i]).id == x.1 && is_flagged(
                    session,
                    ws,
                    head[i],
                    flags,
                );
            assert(panes[i].id == x.1 && is_flagged(session, ws, panes[i], flags));
        }
        if exists|i: int|
            0 <= i < panes.len() && (#[trigger] panes[i]).id == x.1 && is_flagged(
                session,
                ws,
                panes[i],
                flags,
            ) {
            let i = choose|i: int|
                0 <= i < panes.len() && (#[trigger] panes[i]).id == x.1 && is_flagged(
                    session,
                    ws,
                    panes[i],
                    flags,
                );
            if i < n {
                assert(head[i].id == x.1 && is_flagged(session, ws, head[i], flags));
            }
        }
    } else {
        assert(flagged_panes(session, ws, panes, flags).len() == 0);
    }
}

proof fn lemma_flagged_tabs(
    session: Session,
    ws: int,
    tabs: Seq<Tab>,
    flags: Seq<bool>,
    x: PaneRef,
)
    ensures
        flagged_tabs(session, ws, tabs, flags).contains(x) <==> x.0 == ws && has_flagged_pane(
            session,
            ws,
            tabs,
            flags,
            x.1,
        ),
    decreases tabs.len(),
{
    if tabs.len() > 0 {
        let head = tabs.drop_last();
        let own = tabs.last().panes@;
        let n = tabs.len() - 1;
        lemma_flagged_tabs(session, ws, head, flags, x);
        lemma_flagged_panes(session, ws, own, flags, x);
        lemma_joined(
            flagged_tabs(session, ws, head, flags),
            flagged_panes(session, ws, own, flags),
            x,
        );
        assert(tabs[n] == tabs.last());
        if has_flagged_pane(session, ws, head, flags, x.1) {
            let (t, i) = choose|t: int, i: int|
                0 <= t < head.len() && 0 <= i < head[t].panes@.len() && (
                #[trigger] head[t].panes@[i]).id == x.1 && is_flagged(
                    session,
                    ws,
                    head[t].panes@[i],
                    flags,
                );
            assert(tabs[t] == head[t]);
            assert(tabs[t].panes@[i].id == x.1);
        }
        if exists|i: int|
            0 <= i < own.len() && (#[trigger] own[i]).id == x.1 && is_flagged(
                session,
                ws,
                own[i],
                flags,
            ) {
            let i = choose|i: int|
                0 <= i < own.len() && (#[trigger] own[i]).id == x.1 && is_flagged(
                    session,
                    ws,
                    own[i],
                    flags,
                );
            assert(tabs[n].panes@[i].id == x.1);
        }
        if has_flagged_pane(session, ws, tabs, flags, x.1) {
            let (t, i) = choose|t: int, i: int|
                0 <= t < tabs.len() && 0 <= i < tabs[t].panes@.len() && (
                #[trigger] tabs[t].panes@[i]).id == x.1 && is_flagged(
                    session,
                    ws,
                    tabs[t].panes@[i],
                    flags,
                );
            if t < n {
                assert(head[t] == tabs[t]);
                assert(head[t].panes@[i].id == x.1);
            } else {
                assert(own[i].id == x.1);
            }
        }
    } else {
        assert(flagged_tabs(session, ws, tabs, flags).len() == 0);
    }
}

/// The panes that are told of are those that show a flagged terminal, in whichever tab of whichever
/// workspace.
pub proof fn law_panes_of_flagged_terminals_are_told_of(
    session: Session,
    n: int,
    flags: Seq<bool>,
    ws: int,
    pane: u64,
)
    requires
        0 <= n <= session.workspaces@.len(),
    ensures
        flagged(session, n, flags).contains((ws, pane)) <==> 0 <= ws < n && has_flagged_pane(
            session,
            ws,
            session.workspaces@[ws].tabs@,
            flags,
            pane,
        ),
    decreases n,
{
    if n > 0 {
        law_panes_of_flagged_terminals_are_told_of(session, n - 1, flags, ws, pane);
        let tabs = session.workspaces@[n - 1].tabs@;
        lemma_flagged_tabs(session, n - 1, tabs, flags, (ws, pane));
        lemma_joined(
            flagged(session, n - 1, flags),
            flagged_tabs(session, n - 1, tabs, flags),
            (ws, pane),
        );
    } else {
        assert(flagged(session, n, flags).len() == 0);
    }
}

/// A pane shows a flagged terminal when its terminal is there, is flagged, and something can be said
/// of the pane.
pub proof fn law_flagged_panes(session: Session, ws: int, pane: Pane, flags: Seq<bool>)
    ensures
        is_flagged(session, ws, pane, flags) ==> has_info(session, ws, pane.id) && exists|t: int|
            0 <= t < session.terminals@.len() && (#[trigger] session.terminals@[t]).id@
                == pane.terminal_id@ && flags[t],
        (forall|t: int|
            0 <= t < session.terminals@.len() && (#[trigger] session.terminals@[t]).id@
                == pane.terminal_id@ ==> flags[t]) && (exists|t: int|
            0 <= t < session.terminals@.len() && (#[trigger] session.terminals@[t]).id@
                == pane.terminal_id@) && has_info(session, ws, pane.id) ==> is_flagged(
            session,
            ws,
            pane,
            flags,
        ),
{
    broadcast use lemma_first_where;

}

/// The flagged positions are those with a flag, one after another.
pub proof fn law_flagged_positions(flags: Seq<bool>, i: int, a: int, b: int)
    ensures
        flagged_positions(flags).contains(i) <==> 0 <= i < flags.len() && flags[i],
        0 <= a < b < flagged_positions(flags).len() ==> flagged_positions(flags)[a]
            < flagged_positions(flags)[b],
        0 <= a < flagged_positions(flags).len() ==> 0 <= flagged_positions(flags)[a] < flags.len(),
    decreases flags.len(),
{
    if flags.len() > 0 {
        let head = flags.drop_last();
        let before = flagged_positions(head);
        law_flagged_positions(head, i, a, b);
        lemma_pushed(before, flags.len() - 1, i);
        if 0 <= a < before.len() {
            law_flagged_positions(head, before[a], a, b);
        }
    } else {
        assert(flagged_positions(flags).len() == 0);
    }
}

/// What listeners are told stands after what they were told before, one event for each pane or
/// workspace, in order.
pub proof fn law_events_follow_one_another(
    before: Seq<Event>,
    events: Seq<Event>,
    session: Session,
    panes: Seq<PaneRef>,
    ws: Seq<int>,
    k: int,
)
    ensures
        panes_told(before, events, session, panes) ==> {
            &&& events.len() == before.len() + panes.len()
            &&& 0 <= k < before.len() ==> events[k] == before[k]
            &&& 0 <= k < panes.len() ==> (events[before.len() + k] matches Event::PaneUpdated {
                pane,
            } && crate::info::is_pane_info(pane, session, panes[k].0, panes[k].1))
        },
        workspaces_told(before, events, session, ws) ==> {
            &&& events.len() == before.len() + ws.len()
            &&& 0 <= k < before.len() ==> events[k] == before[k]
            &&& 0 <= k < ws.len() ==> (events[before.len()
                + k] matches Event::WorkspaceMetadataUpdated { workspace } && is_workspace_info(
                workspace,
                session,
                ws[k],
            ))
        },
{
    if panes_told(before, events, session, panes) {
        if 0 <= k < before.len() {
            assert(events.take(before.len() as int)[k] == events[k]);
        }
        if 0 <= k < panes.len() {
            assert(tells_pane(events[before.len() + k], session, panes[k]));
        }
    }
    if workspaces_told(before, events, session, ws) {
        if 0 <= k < before.len() {
            assert(events.take(before.len() as int)[k] == events[k]);
        }
        if 0 <= k < ws.len() {
            assert(tells_workspace(events[before.len() + k], session, ws[k]));
        }
    }
}

/// A status that is told of is that of the pane's own agent, done where it is idle and was not looked
/// at, with the names that its terminal shows.
pub proof fn law_statuses_are_told_of_their_pane(
    event: Event,
    session: Session,
    pane: PaneRef,
    p: Pane,
    t: Terminal,
)
    requires
        tells_status(event, session, pane),
        session.workspaces@[pane.0].spec_pane(pane.1) == Some(p),
        session.spec_terminal_of(pane.0, pane.1) == Some(t),
    ensures
        event matches Event::PaneAgentStatusChanged {
            pane_id,
            workspace_id,
            agent_status,
            title,
            display_agent,
            state_labels,
        } && {
            &&& pane_id@ == p.public_id@
            &&& workspace_id@ == session.workspaces@[pane.0].id@
            &&& agent_status == status_of(t.state, p.seen)
            &&& title == t.presentation.title
            &&& display_agent == t.presentation.display_agent
            &&& state_labels@ == t.presentation.state_labels@
        },
{
}

/// Of the panes that were asked about, those are told of that something can be said of.
pub proof fn law_panes_without_infos_are_passed_over(
    session: Session,
    panes: Seq<PaneRef>,
    pane: PaneRef,
)
    ensures
        with_info(session, panes).contains(pane) <==> panes.contains(pane) && has_info(
            session,
            pane.0,
            pane.1,
        ),
{
    lemma_filtered(panes, |x: PaneRef| has_info(session, x.0, x.1), pane);
}

// ---------------------------------------------------------------------------------------------
// Expiry
// ---------------------------------------------------------------------------------------------

proof fn lemma_filter_loses<A>(s: Seq<A>, p: spec_fn(A) -> bool)
    ensures
        s.filter(p).len() <= s.len(),
        s.filter(p).len() != s.len() <==> exists|i: int| 0 <= i < s.len() && !p(#[trigger] s[i]),
    decreases s.len(),
{
    reveal(Seq::filter);
    if s.len() > 0 {
        let head = s.drop_last();
        let n = s.len() - 1;
        lemma_filter_loses(head, p);
        assert(forall|i: int| 0 <= i < n ==> #[trigger] head[i] == s[i]);
        assert(s[n] == s.last());
        if exists|i: int| 0 <= i < head.len() && !p(#[trigger] head[i]) {
            let i = choose|i: int| 0 <= i < head.len() && !p(#[trigger] head[i]);
            assert(!p(s[i]));
        }
        if exists|i: int| 0 <= i < s.len() && !p(#[trigger] s[i]) {
            let i = choose|i: int| 0 <= i < s.len() && !p(#[trigger] s[i]);
            if i < n {
                assert(!p(head[i]));
            }
        }
    }
}

/// Tokens are lost when the time of one of them has come.
pub proof fn law_tokens_are_lost_when_due(store: TokenStore, now: u64)
    ensures
        loses_tokens(store, now) <==> exists|i: int|
            0 <= i < store.tokens@.len() && ((#[trigger] store.tokens@[i]).expires_at matches Some(
                at,
            ) && at <= now),
{
    let p = |t: Token| !(t.expires_at matches Some(at) && at <= now);
    lemma_filter_loses(store.tokens@, p);
    if loses_tokens(store, now) {
        let i = choose|i: int| 0 <= i < store.tokens@.len() && !p(#[trigger] store.tokens@[i]);
        assert(store.tokens@[i].expires_at matches Some(at) && at <= now);
    }
    if exists|i: int|
        0 <= i < store.tokens@.len() && ((#[trigger] store.tokens@[i]).expires_at matches Some(at)
            && at <= now) {
        let i = choose|i: int|
            0 <= i < store.tokens@.len() && ((#[trigger] store.tokens@[i]).expires_at matches Some(
                at,
            ) && at <= now);
        assert(!p(store.tokens@[i]));
    }
}

/// A time that comes no later than any expiry of some tokens, and is one where there is one.
pub open spec fn none_before(at: Option<u64>, tokens: Seq<Token>) -> bool {
    forall|i: int|
        0 <= i < tokens.len() ==> ((#[trigger] tokens[i]).expires_at matches Some(x) ==> at
            is Some && at->0 <= x)
}

proof fn lemma_terminals_expiry(terminals: Seq<Terminal>)
    ensures
        forall|i: int|
            0 <= i < terminals.len() ==> none_before(
                terminals_expiry(terminals),
                (#[trigger] terminals[i]).tokens.tokens@,
            ),
        terminals_expiry(terminals) matches Some(t) ==> exists|i: int, k: int|
            0 <= i < terminals.len() && 0 <= k < terminals[i].tokens.tokens@.len() && (
            #[trigger] terminals[i].tokens.tokens@[k]).expires_at == Some(t),
    decreases terminals.len(),
{
    if terminals.len() > 0 {
        let head = terminals.drop_last();
        let n = terminals.len() - 1;
        let own = terminals.last().tokens.tokens@;
        lemma_terminals_expiry(head);
        law_the_next_expiry_is_the_first(own);
        assert(terminals[n] == terminals.last());
        assert forall|i: int| 0 <= i < terminals.len() implies none_before(
            terminals_expiry(terminals),
            (#[trigger] terminals[i]).tokens.tokens@,
        ) by {
            if i < n {
                assert(head[i] == terminals[i]);
                assert(none_before(terminals_expiry(head), head[i].tokens.tokens@));
            }
        }
        if let Some(t) = terminals_expiry(terminals) {
            if terminals_expiry(head) == Some(t) {
                let (i, k) = choose|i: int, k: int|
                    0 <= i < head.len() && 0 <= k < head[i].tokens.tokens@.len() && (
                    #[trigger] head[i].tokens.tokens@[k]).expires_at == Some(t);
                assert(head[i] == terminals[i]);
                assert(terminals[i].tokens.tokens@[k].expires_at == Some(t));
            } else {
                let k = choose|k: int|
                    0 <= k < own.len() && (#[trigger] own[k]).expires_at == Some(t);
                assert(terminals[n].tokens.tokens@[k].expires_at == Some(t));
            }
        }
    }
}

proof fn lemma_workspaces_expiry(ws: Seq<Workspace>)
    ensures
        forall|i: int|
            0 <= i < ws.len() ==> none_before(
                workspaces_expiry(ws),
                (#[trigger] ws[i]).tokens.tokens@,
            ),
        workspaces_expiry(ws) matches Some(t) ==> exists|i: int, k: int|
            0 <= i < ws.len() && 0 <= k < ws[i].tokens.tokens@.len() && (
            #[trigger] ws[i].tokens.tokens@[k]).expires_at == Some(t),
    decreases ws.len(),
{
    if ws.len() > 0 {
        let head = ws.drop_last();
        let n = ws.len() - 1;
        let own = ws.last().tokens.tokens@;
        lemma_workspaces_expiry(head);
        law_the_next_expiry_is_the_first(own);
        assert(ws[n] == ws.last());
        assert forall|i: int| 0 <= i < ws.len() implies none_before(
            workspaces_expiry(ws),
            (#[trigger] ws[i]).tokens.tokens@,
        ) by {
            if i < n {
                assert(head[i] == ws[i]);
                assert(none_before(workspaces_expiry(head), head[i].tokens.tokens@));
            }
        }
        if let Some(t) = workspaces_expiry(ws) {
            if workspaces_expiry(head) == Some(t) {
                let (i, k) = choose|i: int, k: int|
                    0 <= i < head.len() && 0 <= k < head[i].tokens.tokens@.len() && (
                    #[trigger] head[i].tokens.tokens@[k]).expires_at == Some(t);
                assert(head[i] == ws[i]);
                assert(ws[i].tokens.tokens@[k].expires_at == Some(t));
            } else {
                let k = choose|k: int|
                    0 <= k < own.len() && (#[trigger] own[k]).expires_at == Some(t);
                assert(ws[n].tokens.tokens@[k].expires_at == Some(t));
            }
        }
    }
}

/// The next expiry of a session comes no later than that of any token of a terminal or a workspace,
/// nor than that of a shown detail; and it is that of one of these.
pub proof fn law_the_session_looks_to_its_first_expiry(session: Session)
    ensures
        ({
            let next = session.spec_next_expiry();
            &&& forall|i: int|
                0 <= i < session.terminals@.len() ==> none_before(
                    next,
                    (#[trigger] session.terminals@[i]).tokens.tokens@,
                )
            &&& forall|i: int|
                0 <= i < session.workspaces@.len() ==> none_before(
                    next,
                    (#[trigger] session.workspaces@[i]).tokens.tokens@,
                )
            &&& session.presentation_deadline matches Some(x) ==> next is Some && next->0 <= x
            &&& next matches Some(t) ==> {
                ||| session.presentation_deadline == Some(t)
                ||| exists|i: int, k: int|
                    0 <= i < session.terminals@.len() && 0 <= k
                        < session.terminals@[i].tokens.tokens@.len() && (
                    #[trigger] session.terminals@[i].tokens.tokens@[k]).expires_at == Some(t)
                ||| exists|i: int, k: int|
                    0 <= i < session.workspaces@.len() && 0 <= k
                        < session.workspaces@[i].tokens.tokens@.len() && (
                    #[trigger] session.workspaces@[i].tokens.tokens@[k]).expires_at == Some(t)
            }
        }),
{
    lemma_terminals_expiry(session.terminals@);
    lemma_workspaces_expiry(session.workspaces@);
    assert forall|i: int| 0 <= i < session.terminals@.len() implies none_before(
        session.spec_next_expiry(),
        (#[trigger] session.terminals@[i]).tokens.tokens@,
    ) by {
        assert(none_before(
            terminals_expiry(session.terminals@),
            session.terminals@[i].tokens.tokens@,
        ));
    }
    assert forall|i: int| 0 <= i < session.workspaces@.len() implies none_before(
        session.spec_next_expiry(),
        (#[trigger] session.workspaces@[i]).tokens.tokens@,
    ) by {
        assert(none_before(
            workspaces_expiry(session.workspaces@),
            session.workspaces@[i].tokens.tokens@,
        ));
    }
}

/// When metadata expires, each terminal and each workspace keeps the tokens whose time has not come;
/// a terminal that loses one has its next revision; everything else of them stays as it was.
pub proof fn law_expiry_takes_what_is_due(
    before: Session,
    after: Session,
    now: u64,
    i: int,
    token: Token,
)
    requires
        before.all_expired(after, now),
    ensures
        after.terminals@.len() == before.terminals@.len(),
        after.workspaces@.len() == before.workspaces@.len(),
        0 <= i < before.terminals@.len() ==> {
            let old = before.terminals@[i];
            let new = after.terminals@[i];
            &&& new.tokens.tokens@.contains(token) <==> old.tokens.tokens@.contains(token) && (
            token.expires_at is None || now < token.expires_at->0)
            &&& new.tokens.sequences == old.tokens.sequences
            &&& new.revision == if exists|k: int|
                0 <= k < old.tokens.tokens@.len() && ((
                #[trigger] old.tokens.tokens@[k]).expires_at matches Some(at) && at <= now) {
                next_revision(old.revision)
            } else {
                old.revision
            }
            &&& new == (Terminal { tokens: new.tokens, revision: new.revision, ..old })
        },
        0 <= i < before.workspaces@.len() ==> {
            let old = before.workspaces@[i];
            let new = after.workspaces@[i];
            &&& new.tokens.tokens@.contains(token) <==> old.tokens.tokens@.contains(token) && (
            token.expires_at is None || now < token.expires_at->0)
            &&& new.tokens.sequences == old.tokens.sequences
            &&& new == (Workspace { tokens: new.tokens, ..old })
        },
{
    if 0 <= i < before.terminals@.len() {
        assert(after.terminals@[i] == after.terminals@[i]);
        crate::laws::metadata::law_tokens_go_when_their_time_is_up(
            before.terminals@[i].tokens.tokens@,
            now,
            token,
        );
        law_tokens_are_lost_when_due(before.terminals@[i].tokens, now);
    }
    if 0 <= i < before.workspaces@.len() {
        assert(after.workspaces@[i] == after.workspaces@[i]);
        crate::laws::metadata::law_tokens_go_when_their_time_is_up(
            before.workspaces@[i].tokens.tokens@,
            now,
            token,
        );
    }
}

/// Listeners are told of each pane whose terminal lost a token and of each workspace that lost one,
/// and of no other; nothing that is left is due, and the next deadline is the next expiry.
pub proof fn law_expiry_is_told_of(
    before: Session,
    mid: Session,
    after: Session,
    now: u64,
    ws: int,
    pane: u64,
)
    requires
        before.metadata_expired(mid, after, now),
        0 <= ws < before.workspaces@.len(),
    ensures
        ({
            let panes = flagged(
                mid,
                mid.workspaces@.len() as int,
                losing_terminals(before.terminals@, now),
            );
            let workspaces = flagged_positions(losing_workspaces(before.workspaces@, now));
            &&& after.events@.len() == before.events@.len() + panes.len() + workspaces.len()
            &&& forall|k: int|
                0 <= k < panes.len() ==> tells_pane(
                    after.events@[before.events@.len() + k],
                    mid,
                    #[trigger] panes[k],
                )
            &&& forall|k: int|
                0 <= k < workspaces.len() ==> tells_workspace(
                    after.events@[before.events@.len() + panes.len() + k],
                    mid,
                    #[trigger] workspaces[k],
                )
            &&& panes.contains((ws, pane)) <==> has_flagged_pane(
                mid,
                ws,
                mid.workspaces@[ws].tabs@,
                losing_terminals(before.terminals@, now),
                pane,
            )
            &&& workspaces.contains(ws) <==> exists|k: int|
                0 <= k < before.workspaces@[ws].tokens.tokens@.len() && ((
                #[trigger] before.workspaces@[ws].tokens.tokens@[k]).expires_at matches Some(at)
                    && at <= now)
        }),
        after.metadata_deadline == mid.spec_next_expiry(),
        after.terminals == mid.terminals,
        after.workspaces == mid.workspaces,
        after == (Session {
            terminals: after.terminals,
            workspaces: after.workspaces,
            events: after.events,
            metadata_deadline: after.metadata_deadline,
            ..before
        }),
{
    let flags = losing_terminals(before.terminals@, now);
    let panes = flagged(mid, mid.workspaces@.len() as int, flags);
    let losing = losing_workspaces(before.workspaces@, now);
    let workspaces = flagged_positions(losing);
    let n = before.events@.len() + panes.len();
    law_panes_of_flagged_terminals_are_told_of(
        mid,
        mid.workspaces@.len() as int,
        flags,
        ws,
        pane,
    );
    law_flagged_positions(losing, ws, 0, 0);
    law_tokens_are_lost_when_due(before.workspaces@[ws].tokens, now);
    let first = after.events@.take(n as int);
    assert forall|k: int| 0 <= k < panes.len() implies tells_pane(
        after.events@[before.events@.len() + k],
        mid,
        #[trigger] panes[k],
    ) by {
        assert(tells_pane(first[before.events@.len() + k], mid, panes[k]));
    }
    assert forall|k: int| 0 <= k < workspaces.len() implies tells_workspace(
        after.events@[before.events@.len() + panes.len() + k],
        mid,
        #[trigger] workspaces[k],
    ) by {
        assert(tells_workspace(after.events@[first.len() + k], mid, workspaces[k]));
    }
}

/// A report on a workspace that is not there is refused with its name. One on a workspace that is
/// there concerns that workspace's tokens alone; listeners are told of the workspace once where a
/// token changed, and then the next deadline is the next expiry.
pub proof fn law_reports_concern_their_workspace(
    before: Session,
    after: Session,
    id: Seq<char>,
    report: MetadataReport,
    now: u64,
    refused: Option<Refusal>,
    ws: int,
)
    requires
        metadata_reported(before, after, id, report, now, refused),
        0 <= ws < before.workspaces@.len(),
    ensures
        after.workspaces@.len() == before.workspaces@.len(),
        before.workspaces@[ws].id@ != id ==> after.workspaces@[ws] == before.workspaces@[ws],
        after.workspaces@[ws] == (Workspace {
            tokens: after.workspaces@[ws].tokens,
            ..before.workspaces@[ws]
        }),
        (forall|i: int|
            0 <= i < before.workspaces@.len() ==> (#[trigger] before.workspaces@[i]).id@ != id)
            ==> refused == Some(workspace_missing(id)) && after == before,
        after.events@.len() == before.events@.len() || after.events@.len() == before.events@.len()
            + 1,
        after.events@.len() == before.events@.len() + 1 ==> after.metadata_deadline
            == after.spec_next_expiry() && (
        after.events@.last() matches Event::WorkspaceMetadataUpdated { workspace }
            && workspace.workspace_id@ == id),
        after.events@.len() == before.events@.len() ==> after.metadata_deadline
            == before.metadata_deadline,
        refused is Some ==> after.events@.len() == before.events@.len(),
        after.terminals == before.terminals,
        after.active == before.active,
{
    broadcast use lemma_first_where;

    if let Some(found) = workspace_at(before.workspaces@, id) {
        assert(before.workspaces@[found].id@ == id);
        if ws != found {
            assert(after.workspaces@[ws] == before.workspaces@[ws]);
        }
    } else {
        assert(before.workspaces@[ws].id@ != id);
    }
}

// ---------------------------------------------------------------------------------------------
// Titles
// ---------------------------------------------------------------------------------------------

proof fn lemma_titles_joined(session: Session, a: Seq<TitlePart>, b: Seq<TitlePart>, host: Seq<char>)
    ensures
        session.title_text(a + b, host) == session.title_text(a, host) + session.title_text(b, host),
    decreases b.len(),
{
    if b.len() == 0 {
        assert(a + b =~= a);
        assert(session.title_text(a, host) + Seq::<char>::empty() =~= session.title_text(a, host));
    } else {
        let head = b.drop_last();
        lemma_titles_joined(session, a, head, host);
        assert((a + b).drop_last() =~= a + head);
        assert((a + b).last() == b.last());
        let x = session.title_text(a, host);
        let y = session.title_text(head, host);
        let z = session.part_text(b.last(), host);
        assert(x + y + z =~= x + (y + z));
    }
}

/// The window's title is made of its parts, one after another. A literal stands as it is, the host's
/// name where it is asked for.
pub proof fn law_titles_are_made_of_their_parts(
    session: Session,
    a: Seq<TitlePart>,
    b: Seq<TitlePart>,
    host: Seq<char>,
    text: String,
)
    ensures
        session.title_text(a + b, host) == session.title_text(a, host) + session.title_text(b, host),
        session.title_text(Seq::empty(), host) == Seq::<char>::empty(),
        session.title_text(seq![TitlePart::Literal(text)], host) == text@,
        session.title_text(seq![TitlePart::Hostname], host) == host,
{
    lemma_titles_joined(session, a, b, host);
    lemma_title_of_one(session, TitlePart::Literal(text), host);
    lemma_title_of_one(session, TitlePart::Hostname, host);
}

proof fn lemma_title_of_one(session: Session, part: TitlePart, host: Seq<char>)
    ensures
        session.title_text(seq![part], host) == session.part_text(part, host),
{
    let one = seq![part];
    assert(one.drop_last() =~= Seq::<TitlePart>::empty());
    assert(session.title_text(one.drop_last(), host) =~= Seq::<char>::empty());
    assert(one.last() == part);
    assert(Seq::<char>::empty() + session.part_text(part, host) =~= session.part_text(part, host));
}

/// The title names the active workspace, its active tab, and what the terminal in focus is called: by
/// its own label for a pane, and by the title its program set, without progress marks. Where there is
/// none of these, nothing stands in its place.
pub proof fn law_titles_name_what_is_in_focus(session: Session, host: Seq<char>, ws: int)
    ensures
        ({
            let workspace = session.title_text(seq![TitlePart::Workspace], host);
            let tab = session.title_text(seq![TitlePart::Tab], host);
            let pane = session.title_text(seq![TitlePart::Pane], host);
            let title = session.title_text(seq![TitlePart::TerminalTitle], host);
            let w = session.workspaces@[ws];
            &&& session.active is None || session.active->0 >= session.workspaces@.len()
                ==> workspace.len() == 0 && tab.len() == 0 && pane.len() == 0 && title.len() == 0
            &&& session.active == Some(ws as usize) && 0 <= ws < session.workspaces@.len()
                && session.workspaces@.len() <= usize::MAX ==> {
                &&& workspace == w.spec_display_name()
                &&& w.active_tab < w.tabs@.len() ==> tab == w.spec_tab_name(w.active_tab as int)
                &&& w.active_tab >= w.tabs@.len() ==> tab.len() == 0
                &&& w.spec_focused_pane() matches Some(p) ==> (session.spec_terminal_of(ws, p)
                    matches Some(t) ==> {
                    &&& t.manual_label matches Some(label) ==> pane == label@
                    &&& t.manual_label is None ==> pane.len() == 0
                    &&& t.stripped_title matches Some(s) ==> title == s@
                    &&& t.stripped_title is None ==> title.len() == 0
                })
                &&& w.spec_focused_pane() is None ==> pane.len() == 0 && title.len() == 0
            }
        }),
{
    lemma_title_of_one(session, TitlePart::Workspace, host);
    lemma_title_of_one(session, TitlePart::Tab, host);
    lemma_title_of_one(session, TitlePart::Pane, host);
    lemma_title_of_one(session, TitlePart::TerminalTitle, host);
}

/// A token is shown when it stands in some row, of the common ones or of an agent's own.
pub proof fn law_tokens_are_shown_in_rows(config: AgentRows, token: AgentToken, a: int, r: int, i: int)
    ensures
        0 <= r < config.rows@.len() && 0 <= i < config.rows@[r]@.len() && config.rows@[r]@[i]
            == token ==> is_shown(config, token),
        0 <= a < config.rows_by_agent@.len() && 0 <= r < config.rows_by_agent@[a]@.len() && 0 <= i
            < config.rows_by_agent@[a]@[r]@.len() && config.rows_by_agent@[a]@[r]@[i] == token
            ==> is_shown(config, token),
        config.rows@.len() == 0 && config.rows_by_agent@.len() == 0 ==> !is_shown(config, token),
        is_shown(config, token) ==> (exists|r: int, i: int|
            0 <= r < config.rows@.len() && 0 <= i < config.rows@[r]@.len() && #[trigger]
                config.rows@[r]@[i] == token) || (exists|a: int, r: int, i: int|
            0 <= a < config.rows_by_agent@.len() && 0 <= r < config.rows_by_agent@[a]@.len() && 0
                <= i < config.rows_by_agent@[a]@[r]@.len() && #[trigger]
                config.rows_by_agent@[a]@[r]@[i] == token),
{
}

proof fn lemma_observed_panes(
    session: Session,
    ws: int,
    panes: Seq<Pane>,
    sources: Seq<u64>,
    x: (int, Pane),
)
    ensures
        observed_panes(session, ws, panes, sources).contains(x) <==> x.0 == ws && panes.contains(x.1)
            && is_observed(session, x.1, sources),
    decreases panes.len(),
{
    if panes.len() > 0 {
        let head = panes.drop_last();
        lemma_observed_panes(session, ws, head, sources, x);
        lemma_pushed(observed_panes(session, ws, head, sources), (ws, panes.last()), x);
        lemma_all_but_last(panes, x.1);
    } else {
        assert(observed_panes(session, ws, panes, sources).len() == 0);
    }
}

proof fn lemma_observed_tabs(
    session: Session,
    ws: int,
    tabs: Seq<Tab>,
    sources: Seq<u64>,
    x: (int, Pane),
)
    ensures
        observed_tabs(session, ws, tabs, sources).contains(x) <==> x.0 == ws && is_observed(
            session,
            x.1,
            sources,
        ) && exists|t: int| 0 <= t < tabs.len() && (#[trigger] tabs[t]).panes@.contains(x.1),
    decreases tabs.len(),
{
    if tabs.len() > 0 {
        let head = tabs.drop_last();
        let own = tabs.last().panes@;
        let n = tabs.len() - 1;
        lemma_observed_tabs(session, ws, head, sources, x);
        lemma_observed_panes(session, ws, own, sources, x);
        lemma_joined(
            observed_tabs(session, ws, head, sources),
            observed_panes(session, ws, own, sources),
            x,
        );
        assert(tabs[n] == tabs.last());
        if exists|t: int| 0 <= t < head.len() && (#[trigger] head[t]).panes@.contains(x.1) {
            let t = choose|t: int| 0 <= t < head.len() && (#[trigger] head[t]).panes@.contains(x.1);
            assert(tabs[t] == head[t]);
        }
        if exists|t: int| 0 <= t < tabs.len() && (#[trigger] tabs[t]).panes@.contains(x.1) {
            let t = choose|t: int| 0 <= t < tabs.len() && (#[trigger] tabs[t]).panes@.contains(x.1);
            if t < n {
                assert(tabs[t] == head[t]);
            }
        }
    } else {
        assert(observed_tabs(session, ws, tabs, sources).len() == 0);
    }
}

/// A pane is looked at when it is asked for and a process runs in its terminal, in whichever tab of
/// whichever workspace it is.
pub proof fn law_panes_that_are_asked_for_are_looked_at(
    session: Session,
    n: int,
    sources: Seq<u64>,
    ws: int,
    pane: Pane,
)
    requires
        0 <= n <= session.workspaces@.len(),
    ensures
        observed(session, n, sources).contains((ws, pane)) <==> {
            &&& 0 <= ws < n
            &&& sources.contains(pane.id)
            &&& terminal_at(session.terminals@, pane.terminal_id@) is Some
            &&& session.terminals@[terminal_at(
                session.terminals@,
                pane.terminal_id@,
            )->0].runtime is Some
            &&& exists|t: int|
                0 <= t < session.workspaces@[ws].tabs@.len() && (
                #[trigger] session.workspaces@[ws].tabs@[t]).panes@.contains(pane)
        },
    decreases n,
{
    if n > 0 {
        law_panes_that_are_asked_for_are_looked_at(session, n - 1, sources, ws, pane);
        let tabs = session.workspaces@[n - 1].tabs@;
        lemma_observed_tabs(session, n - 1, tabs, sources, (ws, pane));
        lemma_joined(
            observed(session, n - 1, sources),
            observed_tabs(session, n - 1, tabs, sources),
            (ws, pane),
        );
    } else {
        assert(observed(session, n, sources).len() == 0);
    }
}

/// A terminal takes over the titles its program set last. Its revision goes up when the title without
/// progress marks is another one, and only then; nothing else of it changes.
pub proof fn law_terminals_take_over_their_titles(t: Terminal)
    ensures
        t.runtime is None ==> retitled(t) == t,
        t.runtime matches Some(r) ==> {
            &&& retitled(t).raw_title == r.title
            &&& retitled(t).stripped_title == r.title_stripped
            &&& retitled(t).revision == if opt_view(r.title_stripped) == opt_view(t.stripped_title) {
                t.revision
            } else {
                next_revision(t.revision)
            }
        },
        retitled(t) == (Terminal {
            raw_title: retitled(t).raw_title,
            stripped_title: retitled(t).stripped_title,
            revision: retitled(t).revision,
            ..t
        }),
        retitled(retitled(t)) == retitled(t),
{
}

pub open spec fn looked_at(seen: Seq<Observation>, id: Seq<char>) -> bool {
    exists|k: int| 0 <= k < seen.len() && (#[trigger] seen[k]).terminal_id@ == id
}

pub open spec fn distinct_terminals(terminals: Seq<Terminal>) -> bool {
    forall|i: int, j: int|
        0 <= i < j < terminals.len() ==> (#[trigger] terminals[i]).id@ != (
        #[trigger] terminals[j]).id@
}

proof fn lemma_terminal_found(terminals: Seq<Terminal>, id: Seq<char>, i: int)
    requires
        distinct_terminals(terminals),
        0 <= i < terminals.len(),
        terminals[i].id@ == id,
    ensures
        terminal_at(terminals, id) == Some(i),
{
    broadcast use lemma_first_where;

    if let Some(k) = terminal_at(terminals, id) {
        if k != i {
            assert(terminals[k].id@ == terminals[i].id@);
        }
    } else {
        assert(terminals[i].id@ != id);
    }
}

proof fn lemma_looked_at(seen: Seq<Observation>, id: Seq<char>)
    requires
        seen.len() > 0,
    ensures
        looked_at(seen, id) <==> looked_at(seen.drop_last(), id) || seen.last().terminal_id@ == id,
{
    let head = seen.drop_last();
    let n = seen.len() - 1;
    assert(seen[n] == seen.last());
    if looked_at(head, id) {
        let k = choose|k: int| 0 <= k < head.len() && (#[trigger] head[k]).terminal_id@ == id;
        assert(seen[k] == head[k]);
    }
    if looked_at(seen, id) {
        let k = choose|k: int| 0 <= k < seen.len() && (#[trigger] seen[k]).terminal_id@ == id;
        if k < n {
            assert(head[k] == seen[k]);
        }
    }
}

/// Each terminal that is looked at takes over its titles, once, however many panes show it; every
/// other is left alone.
pub proof fn law_observed_terminals_take_over_their_titles(
    terminals: Seq<Terminal>,
    seen: Seq<Observation>,
)
    requires
        distinct_terminals(terminals),
    ensures
        after_observations(terminals, seen).len() == terminals.len(),
        forall|i: int|
            0 <= i < terminals.len() ==> #[trigger] after_observations(terminals, seen)[i]
                == if looked_at(seen, terminals[i].id@) {
                retitled(terminals[i])
            } else {
                terminals[i]
            },
        distinct_terminals(after_observations(terminals, seen)),
    decreases seen.len(),
{
    if seen.len() > 0 {
        let head = seen.drop_last();
        let id = seen.last().terminal_id@;
        law_observed_terminals_take_over_their_titles(terminals, head);
        let before = after_observations(terminals, head);
        let after = after_observations(terminals, seen);
        lemma_found_there(before, id);
        assert forall|i: int| 0 <= i < terminals.len() implies #[trigger] after[i] == if looked_at(
            seen,
            terminals[i].id@,
        ) {
            retitled(terminals[i])
        } else {
            terminals[i]
        } by {
            lemma_looked_at(seen, terminals[i].id@);
            assert(before[i].id == terminals[i].id);
            if terminals[i].id@ == id {
                lemma_terminal_found(before, id, i);
                law_terminals_take_over_their_titles(terminals[i]);
            }
        }
        assert forall|i: int, j: int| 0 <= i < j < after.len() implies (#[trigger] after[i]).id@ != (
        #[trigger] after[j]).id@ by {
            assert(terminals[i].id@ != terminals[j].id@);
        }
    }
}

proof fn lemma_found_there(terminals: Seq<Terminal>, id: Seq<char>)
    ensures
        terminal_at(terminals, id) matches Some(i) ==> 0 <= i < terminals.len() && terminals[i].id@
            == id,
        terminal_at(terminals, id) is None ==> forall|i: int|
            0 <= i < terminals.len() ==> (#[trigger] terminals[i]).id@ != id,
{
    broadcast use lemma_first_where;

}

/// A title has changed when some terminal that was looked at shows another than it did.
pub proof fn law_changed_titles_are_found(terminals: Seq<Terminal>, seen: Seq<Observation>)
    requires
        distinct_terminals(terminals),
    ensures
        all_found(terminals, seen).raw_changed <==> exists|i: int|
            0 <= i < terminals.len() && raw_differs(#[trigger] terminals[i]) && looked_at(
                seen,
                terminals[i].id@,
            ),
        all_found(terminals, seen).stripped_changed <==> exists|i: int|
            0 <= i < terminals.len() && stripped_differs(#[trigger] terminals[i]) && looked_at(
                seen,
                terminals[i].id@,
            ),
    decreases seen.len(),
{
    if seen.len() > 0 {
        let head = seen.drop_last();
        let id = seen.last().terminal_id@;
        let before = after_observations(terminals, head);
        law_changed_titles_are_found(terminals, head);
        law_observed_terminals_take_over_their_titles(terminals, head);
        lemma_found_there(before, id);
        assert forall|i: int| 0 <= i < terminals.len() implies looked_at(
            seen,
            (#[trigger] terminals[i]).id@,
        ) == (looked_at(head, terminals[i].id@) || terminals[i].id@ == id) by {
            lemma_looked_at(seen, terminals[i].id@);
        }
        assert forall|i: int| 0 <= i < terminals.len() && terminals[i].id@ == id implies
            terminal_at(before, id) == Some(i) && before[i].id == (#[trigger] terminals[i]).id by {
            assert(before[i].id == terminals[i].id);
            lemma_terminal_found(before, id, i);
        }
        if let Some(i) = terminal_at(before, id) {
            assert(before[i].id == terminals[i].id);
            if looked_at(head, terminals[i].id@) {
                crate::titles::law_titles_settle(terminals[i]);
            } else {
                assert(before[i] == terminals[i]);
            }
        }
    } else {
        assert(forall|id: Seq<char>| !looked_at(seen, id));
    }
}

/// Listeners are told of a pane only where its terminal was looked at and shows another title than it
/// did, progress marks apart; and of some pane where there is such a terminal.
pub proof fn law_changed_titles_are_told_of(
    terminals: Seq<Terminal>,
    seen: Seq<Observation>,
    pane: PaneRef,
)
    requires
        distinct_terminals(terminals),
    ensures
        to_publish(terminals, seen).contains(pane) ==> exists|k: int, i: int|
            #![trigger seen[k], terminals[i]]
            0 <= k < seen.len() && 0 <= i < terminals.len() && seen[k].workspace == pane.0
                && seen[k].pane == pane.1 && seen[k].terminal_id@ == terminals[i].id@
                && stripped_differs(terminals[i]),
        to_publish(terminals, seen).len() > 0 <==> all_found(terminals, seen).stripped_changed,
        to_publish(terminals, seen).len() <= seen.len(),
    decreases seen.len(),
{
    if seen.len() > 0 {
        let head = seen.drop_last();
        let last = seen.last();
        let n = seen.len() - 1;
        let before = after_observations(terminals, head);
        law_changed_titles_are_told_of(terminals, head, pane);
        law_observed_terminals_take_over_their_titles(terminals, head);
        lemma_found_there(before, last.terminal_id@);
        lemma_pushed(to_publish(terminals, head), (last.workspace as int, last.pane), pane);
        assert(seen[n] == last);
        if to_publish(terminals, head).contains(pane) {
            let (k, i) = choose|k: int, i: int|
                #![trigger head[k], terminals[i]]
                0 <= k < head.len() && 0 <= i < terminals.len() && head[k].workspace == pane.0
                    && head[k].pane == pane.1 && head[k].terminal_id@ == terminals[i].id@
                    && stripped_differs(terminals[i]);
            assert(seen[k] == head[k] && terminals[i] == terminals[i]);
        } else if to_publish(terminals, seen).contains(pane) {
            let i = terminal_at(before, last.terminal_id@)->0;
            assert(before[i].id == terminals[i].id);
            if looked_at(head, terminals[i].id@) {
                crate::titles::law_titles_settle(terminals[i]);
            }
            assert(stripped_differs(terminals[i]));
            assert(seen[n].workspace == pane.0);
        }
    } else {
        assert(to_publish(terminals, seen).len() == 0);
    }
}

/// The first pane of a terminal that shows another title than it did is told of.
pub proof fn law_the_first_pane_of_a_changed_title_is_told_of(
    terminals: Seq<Terminal>,
    seen: Seq<Observation>,
    i: int,
    k: int,
)
    requires
        distinct_terminals(terminals),
        0 <= i < terminals.len(),
        stripped_differs(terminals[i]),
        0 <= k < seen.len(),
        seen[k].terminal_id@ == terminals[i].id@,
        !looked_at(seen.take(k), terminals[i].id@),
    ensures
        to_publish(terminals, seen).contains((seen[k].workspace as int, seen[k].pane)),
    decreases seen.len(),
{
    let head = seen.drop_last();
    let n = seen.len() - 1;
    let told = (seen[k].workspace as int, seen[k].pane);
    lemma_pushed(
        to_publish(terminals, head),
        (seen.last().workspace as int, seen.last().pane),
        told,
    );
    if k < n {
        assert(head.take(k) =~= seen.take(k));
        law_the_first_pane_of_a_changed_title_is_told_of(terminals, head, i, k);
    } else {
        assert(seen.take(k) =~= head);
        law_observed_terminals_take_over_their_titles(terminals, head);
        let before = after_observations(terminals, head);
        assert(before[i] == terminals[i]);
        lemma_terminal_found(before, terminals[i].id@, i);
    }
}

/// A configured title has the parts that it is configured with, and the host's name where some part
/// mentions it; nothing is configured where there are no parts.
pub proof fn law_titles_are_configured(
    parts: Option<Vec<TitlePart>>,
    host: Option<String>,
    title: Option<WindowTitle>,
    i: int,
)
    requires
        is_configured_title(parts, host, title),
    ensures
        parts is None ==> title is None,
        parts matches Some(p) ==> (title matches Some(t) && t.parts == p && (0 <= i < p@.len()
            && p@[i] is Hostname ==> (host matches Some(name) ==> t.hostname@ == name@) && (
        host is None ==> t.hostname@.len() == 0)) && ((forall|k: int|
            0 <= k < p@.len() ==> !((#[trigger] p@[k]) is Hostname)) ==> t.hostname@.len() == 0)),
{
}

/// A title mentions the terminal's title, or the host, exactly when one of its parts does.
pub proof fn law_what_titles_mention(parts: Seq<TitlePart>, part: TitlePart)
    ensures
        mentions_hostname(parts.push(part)) <==> mentions_hostname(parts) || part is Hostname,
        mentions_terminal_title(parts.push(part)) <==> mentions_terminal_title(parts)
            || part is TerminalTitle,
        !mentions_hostname(Seq::empty()),
        !mentions_terminal_title(Seq::empty()),
{
    let all = parts.push(part);
    let n = parts.len() as int;
    assert(all[n] == part);
    if mentions_hostname(parts) {
        let k = choose|k: int| 0 <= k < parts.len() && (#[trigger] parts[k]) is Hostname;
        assert(all[k] == parts[k]);
    }
    if mentions_hostname(all) {
        let k = choose|k: int| 0 <= k < all.len() && (#[trigger] all[k]) is Hostname;
        if k < n {
            assert(all[k] == parts[k]);
        }
    }
    if mentions_terminal_title(parts) {
        let k = choose|k: int| 0 <= k < parts.len() && (#[trigger] parts[k]) is TerminalTitle;
        assert(all[k] == parts[k]);
    }
    if mentions_terminal_title(all) {
        let k = choose|k: int| 0 <= k < all.len() && (#[trigger] all[k]) is TerminalTitle;
        if k < n {
            assert(all[k] == parts[k]);
        }
    }
}

/// Listeners are told of a pane once, where there is something to say of it, and nothing else changes.
pub proof fn law_pane_updates_are_told_once(before: Session, after: Session, ws: int, pane: u64)
    requires
        pane_update_told(before, after, ws, pane),
    ensures
        after == (Session { events: after.events, ..before }),
        has_info(before, ws, pane) ==> after.events@.len() == before.events@.len() + 1 && (
        after.events@.last() matches Event::PaneUpdated { pane: told } && crate::info::is_pane_info(
            told,
            before,
            ws,
            pane,
        )) && after.events@.drop_last() == before.events@,
        !has_info(before, ws, pane) ==> after.events == before.events,
{
    if has_info(before, ws, pane) {
        assert(after.events@.drop_last() =~= before.events@);
    }
}

/// Agents that were reconciled are told of by their panes, and the session is to be saved; where there
/// were none nothing changes.
pub proof fn law_reconciled_panes_are_told_of(
    before: Session,
    after: Session,
    panes: Seq<PaneRef>,
    changed: bool,
    pane: PaneRef,
)
    requires
        all_reconciled(before, after, panes, changed),
    ensures
        changed <==> panes.len() > 0,
        changed ==> after.save_scheduled,
        !changed ==> after.save_scheduled == before.save_scheduled && after.events@ == before.events@,
        panes.contains(pane) && has_info(before, pane.0, pane.1) ==> exists|k: int|
            before.events@.len() <= k < after.events@.len() && tells_pane(
                #[trigger] after.events@[k],
                before,
                pane,
            ),
        after.events@.take(before.events@.len() as int) == before.events@,
        after == (Session {
            events: after.events,
            save_scheduled: after.save_scheduled,
            ..before
        }),
{
    law_panes_without_infos_are_passed_over(before, panes, pane);
    let told = with_info(before, panes);
    if told.contains(pane) {
        let i = choose|i: int| 0 <= i < told.len() && told[i] == pane;
        assert(tells_pane(after.events@[before.events@.len() + i], before, told[i]));
    }
    if panes.len() == 0 {
        panes.lemma_filter_len(|x: PaneRef| has_info(before, x.0, x.1));
        assert(after.events@ =~= after.events@.take(before.events@.len() as int));
    }
}

proof fn lemma_looked_at_panes(
    session: Session,
    seen: Seq<Observation>,
    sources: Seq<u64>,
    ws: int,
    pane: Pane,
)
    requires
        are_observations(
            seen,
            observed(session, session.workspaces@.len() as int, sources),
        ),
        observed(session, session.workspaces@.len() as int, sources).contains((ws, pane)),
    ensures
        looked_at(seen, pane.terminal_id@),
{
    let all = observed(session, session.workspaces@.len() as int, sources);
    let k = choose|k: int| 0 <= k < all.len() && all[k] == (ws, pane);
    assert(observes(seen[k], all[k].0, all[k].1));
}

/// Looking at titles changes the terminals and what is told, and nothing else. The terminal of a pane
/// that is asked for, and in which a process runs, then has the titles that its program set last; it
/// is said whether one is another than it was, and listeners are told after what they were told before.
pub proof fn law_titles_are_taken_over(
    before: Session,
    after: Session,
    seen: Seq<Observation>,
    sources: Seq<u64>,
    changes: TitleChanges,
    ws: int,
    tab: int,
    pane: Pane,
    i: int,
)
    requires
        are_observations(seen, observed(before, before.workspaces@.len() as int, sources)),
        titles_synced(before, after, seen, changes),
        distinct_terminals(before.terminals@),
        0 <= ws < before.workspaces@.len(),
        0 <= tab < before.workspaces@[ws].tabs@.len(),
        before.workspaces@[ws].tabs@[tab].panes@.contains(pane),
        sources.contains(pane.id),
        0 <= i < before.terminals@.len(),
        before.terminals@[i].id@ == pane.terminal_id@,
    ensures
        before.terminals@[i].runtime matches Some(r) ==> {
            &&& after.terminals@[i].raw_title == r.title
            &&& after.terminals@[i].stripped_title == r.title_stripped
            &&& opt_view(r.title) != opt_view(before.terminals@[i].raw_title) ==> changes.raw_changed
            &&& opt_view(r.title_stripped) != opt_view(before.terminals@[i].stripped_title)
                ==> changes.stripped_changed && to_publish(before.terminals@, seen).len() > 0
        },
        panes_told(
            before.events@,
            after.events@,
            after,
            with_info(after, to_publish(before.terminals@, seen)),
        ),
        after == (Session { terminals: after.terminals, events: after.events, ..before }),
        after.terminals@.len() == before.terminals@.len(),
{
    let n = before.workspaces@.len() as int;
    let t = before.terminals@[i];
    if t.runtime is Some {
        lemma_terminal_found(before.terminals@, pane.terminal_id@, i);
        law_panes_that_are_asked_for_are_looked_at(before, n, sources, ws, pane);
        assert(before.workspaces@[ws].tabs@[tab].panes@.contains(pane));
        lemma_looked_at_panes(before, seen, sources, ws, pane);
        assert(looked_at(seen, t.id@));
        law_changed_titles_are_found(before.terminals@, seen);
        law_changed_titles_are_told_of(before.terminals@, seen, (0, 0));
    }
    law_observed_terminals_take_over_their_titles(before.terminals@, seen);
    assert(after.terminals@[i] == after_observations(before.terminals@, seen)[i]);
}

/// Listeners are told of the status of each pane that was asked about and of which there is something to
/// say, after what they were told before; nothing else changes.
pub proof fn law_statuses_are_told_in_order(
    before: Session,
    after: Session,
    asked: Seq<PaneRef>,
    pane: PaneRef,
)
    requires
        before.statuses_told(after, asked),
    ensures
        after == (Session { events: after.events, ..before }),
        after.events@.len() == before.events@.len() + with_info(before, asked).len(),
        after.events@.take(before.events@.len() as int) == before.events@,
        asked.contains(pane) && has_info(before, pane.0, pane.1) ==> exists|k: int|
            before.events@.len() <= k < after.events@.len() && tells_status(
                #[trigger] after.events@[k],
                before,
                pane,
            ),
{
    law_panes_without_infos_are_passed_over(before, asked, pane);
    let told = with_info(before, asked);
    if told.contains(pane) {
        let i = choose|i: int| 0 <= i < told.len() && told[i] == pane;
        assert(tells_status(after.events@[before.events@.len() + i], before, told[i]));
    }
}

/// Once metadata has expired, what was due is gone and what was not is there, of each terminal and of
/// each workspace; the next deadline comes no later than what is left expires.
pub proof fn law_expired_metadata_is_gone(
    before: Session,
    after: Session,
    shown: Seq<PaneRef>,
    now: u64,
    i: int,
    token: Token,
)
    requires
        before.metadata_expires(after, shown, now),
    ensures
        after.terminals@.len() == before.terminals@.len(),
        after.workspaces@.len() == before.workspaces@.len(),
        0 <= i < before.terminals@.len() ==> (after.terminals@[i].tokens.tokens@.contains(token)
            <==> before.terminals@[i].tokens.tokens@.contains(token) && (token.expires_at is None
            || now < token.expires_at->0)),
        0 <= i < before.workspaces@.len() ==> (after.workspaces@[i].tokens.tokens@.contains(token)
            <==> before.workspaces@[i].tokens.tokens@.contains(token) && (token.expires_at is None
            || now < token.expires_at->0)),
        0 <= i < after.terminals@.len() ==> none_before(
            after.metadata_deadline,
            after.terminals@[i].tokens.tokens@,
        ),
        0 <= i < after.workspaces@.len() ==> none_before(
            after.metadata_deadline,
            after.workspaces@[i].tokens.tokens@,
        ),
        after.active == before.active,
        before.events@.len() <= after.events@.len(),
{
    let (told, mid) = choose|told: Session, mid: Session|
        #![trigger before.statuses_told(told, shown), told.metadata_expired(mid, after, now)]
        before.statuses_told(told, shown) && told.metadata_expired(mid, after, now);
    law_expiry_takes_what_is_due(told, mid, now, i, token);
    law_the_session_looks_to_its_first_expiry(mid);
    if 0 <= i < mid.terminals@.len() {
        assert(none_before(mid.spec_next_expiry(), mid.terminals@[i].tokens.tokens@));
    }
    if 0 <= i < mid.workspaces@.len() {
        assert(none_before(mid.spec_next_expiry(), mid.workspaces@[i].tokens.tokens@));
    }
}

/// The panes that are handed over are looked at as they are, in order.
pub proof fn law_panes_are_looked_at_in_order(panes: Seq<(usize, u64)>, i: int)
    ensures
        refs(panes).len() == panes.len(),
        0 <= i < panes.len() ==> refs(panes)[i].0 == panes[i].0 && refs(panes)[i].1 == panes[i].1,
{
}

} // verus!
