//! Telling listeners that panes and workspaces changed.

use vstd::prelude::*;
use vstd::string::*;
use crate::info::{
    copy_labels, has_info, is_pane_info, is_workspace_info, lemma_tells_alike, pane_agent_status,
    status_of, tells_alike,
};
use crate::metadata::{
    are_kept_tokens, is_course, is_fresh, last_seq, law_accepted_numbers_are_not_accepted_again,
    lemma_numbers_only_grow, report_problem, reported, step_taken, MetadataReport, StoreStep,
    TokenPatch,
};
use crate::response::Refusal;
use crate::search::{lemma_filter_none, lemma_filter_step};
use crate::session::{terminal_at, workspace_at, Event, Pane, Session, Tab, Terminal, Workspace};
use crate::text::{clone_opt_text, trimmed};
use crate::workspaces::{
    law_a_report_that_does_not_count_changes_no_session, lemma_workspace_at, loses_tokens,
    metadata_reported, only_tokens_changed, tokens_expired,
};

verus! {

/// A pane, by its workspace.
pub type PaneRef = (int, u64);

/// `event` tells of a pane.
pub open spec fn tells_pane(event: Event, session: Session, pane: PaneRef) -> bool {
    event matches Event::PaneUpdated { pane: info } && is_pane_info(info, session, pane.0, pane.1)
}

/// `event` tells of a workspace's metadata.
pub open spec fn tells_workspace(event: Event, session: Session, ws: int) -> bool {
    event matches Event::WorkspaceMetadataUpdated { workspace } && is_workspace_info(
        workspace,
        session,
        ws,
    )
}

/// `events` goes on from `before` with one event for each of the panes.
pub open spec fn panes_told(
    before: Seq<Event>,
    events: Seq<Event>,
    session: Session,
    panes: Seq<PaneRef>,
) -> bool {
    &&& events.len() == before.len() + panes.len()
    &&& events.take(before.len() as int) == before
    &&& forall|i: int|
        0 <= i < panes.len() ==> tells_pane(#[trigger] events[before.len() + i], session, panes[i])
}

/// `events` goes on from `before` with one event for each of the workspaces.
pub open spec fn workspaces_told(
    before: Seq<Event>,
    events: Seq<Event>,
    session: Session,
    ws: Seq<int>,
) -> bool {
    &&& events.len() == before.len() + ws.len()
    &&& events.take(before.len() as int) == before
    &&& forall|i: int|
        0 <= i < ws.len() ==> tells_workspace(#[trigger] events[before.len() + i], session, ws[i])
}

/// The panes of the list that have infos and show a flagged terminal.
pub open spec fn flagged_panes(session: Session, ws: int, panes: Seq<Pane>, flags: Seq<bool>) -> Seq<
    PaneRef,
>
    decreases panes.len(),
{
    if panes.len() == 0 {
        Seq::empty()
    } else {
        let before = flagged_panes(session, ws, panes.drop_last(), flags);
        if is_flagged(session, ws, panes.last(), flags) {
            before.push((ws, panes.last().id))
        } else {
            before
        }
    }
}

pub open spec fn is_flagged(session: Session, ws: int, pane: Pane, flags: Seq<bool>) -> bool {
    terminal_at(session.terminals@, pane.terminal_id@) matches Some(t) && flags[t] && has_info(
        session,
        ws,
        pane.id,
    )
}

pub open spec fn flagged_tabs(session: Session, ws: int, tabs: Seq<Tab>, flags: Seq<bool>) -> Seq<
    PaneRef,
>
    decreases tabs.len(),
{
    if tabs.len() == 0 {
        Seq::empty()
    } else {
        flagged_tabs(session, ws, tabs.drop_last(), flags) + flagged_panes(
            session,
            ws,
            tabs.last().panes@,
            flags,
        )
    }
}

/// The panes of the first `n` workspaces that show a flagged terminal.
pub open spec fn flagged(session: Session, n: int, flags: Seq<bool>) -> Seq<PaneRef>
    decreases n,
{
    if n <= 0 {
        Seq::empty()
    } else {
        flagged(session, n - 1, flags) + flagged_tabs(
            session,
            n - 1,
            session.workspaces@[n - 1].tabs@,
            flags,
        )
    }
}

/// The positions that are flagged.
pub open spec fn flagged_positions(flags: Seq<bool>) -> Seq<int>
    decreases flags.len(),
{
    if flags.len() == 0 {
        Seq::empty()
    } else if flags.last() {
        flagged_positions(flags.drop_last()).push(flags.len() - 1)
    } else {
        flagged_positions(flags.drop_last())
    }
}

/// The terminals, or workspaces, that lose tokens at `now`.
pub open spec fn losing_terminals(terminals: Seq<Terminal>, now: u64) -> Seq<bool> {
    terminals.map_values(
        |t: Terminal| loses_tokens(t.tokens, now),
    )
}

pub open spec fn losing_workspaces(ws: Seq<Workspace>, now: u64) -> Seq<bool> {
    ws.map_values(
        |w: Workspace| loses_tokens(w.tokens, now),
    )
}

pub proof fn lemma_told_push(
    before: Seq<Event>,
    events: Seq<Event>,
    session: Session,
    panes: Seq<PaneRef>,
    event: Event,
    pane: PaneRef,
)
    requires
        panes_told(before, events, session, panes),
        tells_pane(event, session, pane),
    ensures
        panes_told(before, events.push(event), session, panes.push(pane)),
{
    let longer = events.push(event);
    assert(longer.take(before.len() as int) =~= before);
    assert forall|i: int| 0 <= i < panes.len() + 1 implies tells_pane(
        #[trigger] longer[before.len() + i],
        session,
        panes.push(pane)[i],
    ) by {
        if i < panes.len() {
            assert(longer[before.len() + i] == events[before.len() + i]);
        }
    }
}

/// `new` is `old` with listeners told of a pane, where there is something to say of it.
pub open spec fn pane_update_told(
    old: Session,
    new: Session,
    ws: int,
    pane: u64,
) -> bool {
    &&& new == (Session { events: new.events, ..old })
    &&& if has_info(old, ws, pane) {
        &&& new.events@.len() == old.events@.len() + 1
        &&& new.events@ == old.events@.push(new.events@.last())
        &&& tells_pane(new.events@.last(), old, (ws, pane))
    } else {
        new.events == old.events
    }
}

/// `new` is `old` after the agents in some panes were reconciled.
pub open spec fn all_reconciled(
    old: Session,
    new: Session,
    panes: Seq<PaneRef>,
    r: bool,
) -> bool {
    &&& r == (panes.len() > 0)
    &&& new == (Session {
        events: new.events,
        save_scheduled: old.save_scheduled || r,
        ..old
    })
    &&& panes_told(
        old.events@,
        new.events@,
        old,
        with_info(old, panes),
    )
}

impl Session {
    /// Tell listeners of a pane, where there is something to say of it.
    pub fn emit_pane_updated(&mut self, ws: usize, pane: u64)
        ensures
            pane_update_told(*old(self), *final(self), ws as int, pane),
    {
        match self.pane_info(ws, pane) {
            Some(info) => {
                self.events.push(Event::PaneUpdated { pane: info });
            },
            None => {},
        }
    }

    fn tell_flagged_panes(&mut self, ws: usize, tab: usize, flags: &Vec<bool>, Ghost(
        before,
    ): Ghost<Seq<Event>>, Ghost(told): Ghost<Seq<PaneRef>>)
        requires
            ws < old(self).workspaces@.len(),
            tab < old(self).workspaces@[ws as int].tabs@.len(),
            flags@.len() == old(self).terminals@.len(),
            panes_told(before, old(self).events@, *old(self), told),
        ensures
            *final(self) == (Session { events: final(self).events, ..*old(self) }),
            panes_told(
                before,
                final(self).events@,
                *old(self),
                told + flagged_panes(
                    *old(self),
                    ws as int,
                    old(self).workspaces@[ws as int].tabs@[tab as int].panes@,
                    flags@,
                ),
            ),
    {
        let ghost first = *self;
        let ghost panes = self.workspaces@[ws as int].tabs@[tab as int].panes@;
        let mut i: usize = 0;
        proof {
            assert(told + flagged_panes(first, ws as int, panes.take(0), flags@) =~= told);
        }
        while i < self.workspaces[ws].tabs[tab].panes.len()
            invariant
                *self == (Session { events: self.events, ..first }),
                ws < first.workspaces@.len(),
                tab < first.workspaces@[ws as int].tabs@.len(),
                panes == first.workspaces@[ws as int].tabs@[tab as int].panes@,
                flags@.len() == first.terminals@.len(),
                i <= panes.len(),
                panes_told(
                    before,
                    self.events@,
                    first,
                    told + flagged_panes(first, ws as int, panes.take(i as int), flags@),
                ),
            decreases panes.len() - i,
        {
            let ghost so_far = told + flagged_panes(
                first,
                ws as int,
                panes.take(i as int),
                flags@,
            );
            proof {
                assert(panes.take(i + 1).drop_last() =~= panes.take(i as int));
                assert(panes.take(i + 1).last() == panes[i as int]);
                lemma_tells_alike(first, *self);
            }
            let pane: u64 = self.workspaces[ws].tabs[tab].panes[i].id;
            let losing = match self.find_terminal(
                self.workspaces[ws].tabs[tab].panes[i].terminal_id.as_str(),
            ) {
                Some(t) => flags[t],
                None => false,
            };
            let ghost events_before = self.events@;
            if losing {
                let ghost current = *self;
                self.emit_pane_updated(ws, pane);
                proof {
                    if has_info(first, ws as int, pane) {
                        assert(has_info(current, ws as int, pane));
                        assert(tells_pane(self.events@.last(), first, (ws as int, pane)));
                        lemma_told_push(
                            before,
                            events_before,
                            first,
                            so_far,
                            self.events@.last(),
                            (ws as int, pane),
                        );
                        assert(told + flagged_panes(first, ws as int, panes.take(i + 1), flags@)
                            =~= so_far.push((ws as int, pane)));
                    } else {
                        assert(!has_info(current, ws as int, pane));
                    }
                }
            }
            i = i + 1;
        }
        proof {
            assert(panes.take(i as int) =~= panes);
        }
    }

    /// Tell listeners of the panes that show a flagged terminal.
    pub fn tell_flagged(&mut self, flags: &Vec<bool>)
        requires
            flags@.len() == old(self).terminals@.len(),
        ensures
            *final(self) == (Session { events: final(self).events, ..*old(self) }),
            panes_told(
                old(self).events@,
                final(self).events@,
                *old(self),
                flagged(*old(self), old(self).workspaces@.len() as int, flags@),
            ),
    {
        let ghost first = *self;
        let ghost before = self.events@;
        let mut w: usize = 0;
        proof {
            assert(self.events@.take(before.len() as int) =~= before);
        }
        while w < self.workspaces.len()
            invariant
                *self == (Session { events: self.events, ..first }),
                flags@.len() == first.terminals@.len(),
                w <= first.workspaces@.len(),
                panes_told(before, self.events@, first, flagged(first, w as int, flags@)),
            decreases first.workspaces@.len() - w,
        {
            let ghost done = flagged(first, w as int, flags@);
            let ghost tabs = first.workspaces@[w as int].tabs@;
            let mut t: usize = 0;
            proof {
                assert(done + flagged_tabs(first, w as int, tabs.take(0), flags@) =~= done);
            }
            while t < self.workspaces[w].tabs.len()
                invariant
                    *self == (Session { events: self.events, ..first }),
                    flags@.len() == first.terminals@.len(),
                    w < first.workspaces@.len(),
                    tabs == first.workspaces@[w as int].tabs@,
                    t <= tabs.len(),
                    panes_told(
                        before,
                        self.events@,
                        first,
                        done + flagged_tabs(first, w as int, tabs.take(t as int), flags@),
                    ),
                decreases tabs.len() - t,
            {
                let ghost so_far = done + flagged_tabs(
                    first,
                    w as int,
                    tabs.take(t as int),
                    flags@,
                );
                let ghost current = *self;
                proof {
                    lemma_told_alike(before, self.events@, first, current, so_far);
                }
                self.tell_flagged_panes(w, t, flags, Ghost(before), Ghost(so_far));
                proof {
                    assert(tabs.take(t + 1).drop_last() =~= tabs.take(t as int));
                    assert(tabs.take(t + 1).last() == tabs[t as int]);
                    lemma_flagged_alike(first, current, w as int, tabs[t as int].panes@, flags@);
                    assert(done + flagged_tabs(first, w as int, tabs.take(t + 1), flags@)
                        =~= so_far + flagged_panes(
                        first,
                        w as int,
                        tabs[t as int].panes@,
                        flags@,
                    ));
                    lemma_told_alike(
                        before,
                        self.events@,
                        current,
                        first,
                        done + flagged_tabs(first, w as int, tabs.take(t + 1), flags@),
                    );
                }
                t = t + 1;
            }
            proof {
                assert(tabs.take(t as int) =~= tabs);
            }
            w = w + 1;
        }
    }

    /// Tell listeners of the metadata of the workspaces at the flagged positions.
    pub fn tell_flagged_workspaces(&mut self, flags: &Vec<bool>)
        requires
            flags@.len() == old(self).workspaces@.len(),
        ensures
            *final(self) == (Session { events: final(self).events, ..*old(self) }),
            workspaces_told(
                old(self).events@,
                final(self).events@,
                *old(self),
                flagged_positions(flags@),
            ),
    {
        let ghost first = *self;
        let ghost before = self.events@;
        let mut i: usize = 0;
        proof {
            assert(self.events@.take(before.len() as int) =~= before);
        }
        while i < flags.len()
            invariant
                *self == (Session { events: self.events, ..first }),
                flags@.len() == first.workspaces@.len(),
                i <= flags@.len(),
                workspaces_told(
                    before,
                    self.events@,
                    first,
                    flagged_positions(flags@.take(i as int)),
                ),
            decreases flags@.len() - i,
        {
            let ghost so_far = flagged_positions(flags@.take(i as int));
            let ghost current = *self;
            proof {
                assert(flags@.take(i + 1).drop_last() =~= flags@.take(i as int));
            }
            if flags[i] {
                let workspace = self.workspace_info(i);
                let event = Event::WorkspaceMetadataUpdated { workspace };
                self.events.push(event);
                proof {
                    lemma_tells_alike(first, current);
                    assert(tells_workspace(event, first, i as int));
                    assert(self.events@.take(before.len() as int) =~= before);
                    assert forall|k: int| 0 <= k < so_far.len() + 1 implies tells_workspace(
                        #[trigger] self.events@[before.len() + k],
                        first,
                        so_far.push(i as int)[k],
                    ) by {
                        if k < so_far.len() {
                            assert(self.events@[before.len() + k] == current.events@[before.len()
                                + k]);
                        }
                    }
                }
            }
            i = i + 1;
        }
        proof {
            assert(flags@.take(i as int) =~= flags@);
        }
    }

    /// `new` is `self` after the metadata that is due at `now` has expired: the tokens are gone,
    /// listeners are told of the panes and then of the workspaces that lost some, and the next
    /// deadline is known. `mid` is the session without the tokens, before anything is told.
    pub open spec fn metadata_expired(&self, mid: Session, new: Session, now: u64) -> bool {
        let panes = flagged(
            mid,
            mid.workspaces@.len() as int,
            losing_terminals(self.terminals@, now),
        );
        &&& self.all_expired(mid, now)
        &&& mid == (Session { terminals: mid.terminals, workspaces: mid.workspaces, ..*self })
        &&& new == (Session {
            events: new.events,
            metadata_deadline: mid.spec_next_expiry(),
            ..mid
        })
        &&& self.events@.len() + panes.len() <= new.events@.len()
        &&& panes_told(
            self.events@,
            new.events@.take((self.events@.len() + panes.len()) as int),
            mid,
            panes,
        )
        &&& workspaces_told(
            new.events@.take((self.events@.len() + panes.len()) as int),
            new.events@,
            mid,
            flagged_positions(losing_workspaces(self.workspaces@, now)),
        )
    }

    /// Whatever the sessions in between are: listeners are first told of the panes whose shown
    /// details have expired, as `shown` lists them.
    pub open spec fn metadata_expires(&self, new: Session, shown: Seq<PaneRef>, now: u64) -> bool {
        exists|told: Session, mid: Session|
            #![trigger self.statuses_told(told, shown), told.metadata_expired(mid, new, now)]
            self.statuses_told(told, shown) && told.metadata_expired(mid, new, now)
    }

    /// Let go of the tokens that are due at `now`, and tell listeners. `shown` are the panes of
    /// which shown details have already been let go.
    pub fn expire_metadata_at(&mut self, shown: &Vec<(usize, u64)>, now: u64)
        requires
            old(self).tokens_wf(),
        ensures
            final(self).tokens_wf(),
            old(self).metadata_expires(*final(self), refs(shown@), now),
    {
        self.tell_statuses(shown);
        let ghost first = *self;
        let (terminals, workspaces) = self.expire_metadata_tokens(now);
        let ghost mid = *self;
        proof {
            assert(terminals@ =~= losing_terminals(first.terminals@, now));
            assert(workspaces@ =~= losing_workspaces(first.workspaces@, now));
        }
        self.tell_flagged(&terminals);
        let ghost told = self.events@;
        let ghost panes = flagged(mid, mid.workspaces@.len() as int, terminals@);
        let ghost current = *self;
        self.tell_flagged_workspaces(&workspaces);
        proof {
            lemma_tells_alike(mid, current);
            assert(self.events@.take((first.events@.len() + panes.len()) as int) =~= told);
            let positions = flagged_positions(workspaces@);
            assert forall|i: int| 0 <= i < positions.len() implies tells_workspace(
                #[trigger] self.events@[told.len() + i],
                mid,
                positions[i],
            ) by {
                assert(tells_workspace(self.events@[told.len() + i], current, positions[i]));
            }
        }
        self.sync_agent_metadata_deadline();
        proof {
            assert(first.metadata_expired(mid, *self, now));
        }
    }

    /// Tell listeners of some panes, in order; of those of which there is something to say.
    pub fn tell_panes(&mut self, panes: &Vec<(usize, u64)>)
        ensures
            *final(self) == (Session { events: final(self).events, ..*old(self) }),
            panes_told(
                old(self).events@,
                final(self).events@,
                *old(self),
                with_info(*old(self), refs(panes@)),
            ),
    {
        let ghost first = *self;
        let ghost all = refs(panes@);
        let ghost p = |x: PaneRef| has_info(first, x.0, x.1);
        let mut k: usize = 0;
        proof {
            assert(all.take(0) =~= Seq::<PaneRef>::empty());
            lemma_filter_none(p);
            assert(self.events@.take(first.events@.len() as int) =~= first.events@);
        }
        while k < panes.len()
            invariant
                *self == (Session { events: self.events, ..first }),
                all == refs(panes@),
                p == (|x: PaneRef| has_info(first, x.0, x.1)),
                k <= panes@.len(),
                panes_told(first.events@, self.events@, first, all.take(k as int).filter(p)),
            decreases panes@.len() - k,
        {
            let (ws, pane): (usize, u64) = panes[k];
            let ghost so_far = all.take(k as int).filter(p);
            let ghost current = *self;
            proof {
                lemma_filter_step(all, p, k as int);
                assert(all[k as int] == (ws as int, pane));
                lemma_tells_alike(first, current);
            }
            self.emit_pane_updated(ws, pane);
            proof {
                if has_info(first, ws as int, pane) {
                    assert(has_info(current, ws as int, pane));
                    assert(tells_pane(self.events@.last(), first, (ws as int, pane)));
                    lemma_told_push(
                        first.events@,
                        current.events@,
                        first,
                        so_far,
                        self.events@.last(),
                        (ws as int, pane),
                    );
                } else {
                    assert(!has_info(current, ws as int, pane));
                }
            }
            k = k + 1;
        }
        proof {
            assert(all.take(k as int) =~= all);
        }
    }

    /// Managed agents that were due were reconciled, and the state of the agents in `panes`
    /// changed: listeners are told of each, and the session is to be saved. Whether there were any.
    pub fn managed_agents_reconciled(&mut self, panes: &Vec<(usize, u64)>) -> (r: bool)
        ensures
            all_reconciled(*old(self), *final(self), refs(panes@), r),
    {
        self.tell_panes(panes);
        if panes.len() > 0 {
            self.save_scheduled = true;
        }
        panes.len() > 0
    }

    /// `new` is `self` with listeners told of the statuses of the panes of which there is something
    /// to say.
    pub open spec fn statuses_told(&self, new: Session, shown: Seq<PaneRef>) -> bool {
        let panes = with_info(*self, shown);
        &&& new == (Session { events: new.events, ..*self })
        &&& new.events@.len() == self.events@.len() + panes.len()
        &&& new.events@.take(self.events@.len() as int) == self.events@
        &&& forall|i: int|
            0 <= i < panes.len() ==> tells_status(
                #[trigger] new.events@[self.events@.len() + i],
                *self,
                panes[i],
            )
    }

    /// Tell listeners how the agents in some panes are doing.
    pub fn tell_statuses(&mut self, shown: &Vec<(usize, u64)>)
        ensures
            old(self).statuses_told(*final(self), refs(shown@)),
    {
        let ghost first = *self;
        let ghost all = refs(shown@);
        let ghost p = |x: PaneRef| has_info(first, x.0, x.1);
        let mut k: usize = 0;
        proof {
            assert(all.take(0) =~= Seq::<PaneRef>::empty());
            lemma_filter_none(p);
            assert(self.events@.take(first.events@.len() as int) =~= first.events@);
        }
        while k < shown.len()
            invariant
                *self == (Session { events: self.events, ..first }),
                all == refs(shown@),
                p == (|x: PaneRef| has_info(first, x.0, x.1)),
                k <= shown@.len(),
                self.events@.len() == first.events@.len() + all.take(k as int).filter(p).len(),
                self.events@.take(first.events@.len() as int) == first.events@,
                forall|i: int|
                    0 <= i < all.take(k as int).filter(p).len() ==> tells_status(
                        #[trigger] self.events@[first.events@.len() + i],
                        first,
                        all.take(k as int).filter(p)[i],
                    ),
            decreases shown@.len() - k,
        {
            let (ws, pane): (usize, u64) = shown[k];
            let ghost so_far = all.take(k as int).filter(p);
            let ghost current = *self;
            proof {
                lemma_filter_step(all, p, k as int);
                assert(all[k as int] == (ws as int, pane));
                lemma_tells_alike(first, current);
                assert(has_info(first, ws as int, pane) == has_info(current, ws as int, pane));
            }
            match self.status_event(ws, pane) {
                Some(event) => {
                    self.events.push(event);
                    proof {
                        assert(self.events@.take(first.events@.len() as int) =~= first.events@);
                        assert forall|i: int| 0 <= i < so_far.len() + 1 implies tells_status(
                            #[trigger] self.events@[first.events@.len() + i],
                            first,
                            so_far.push((ws as int, pane))[i],
                        ) by {
                            if i < so_far.len() {
                                assert(self.events@[first.events@.len() + i]
                                    == current.events@[first.events@.len() + i]);
                            }
                        }
                    }
                },
                None => {},
            }
            k = k + 1;
        }
        proof {
            assert(all.take(k as int) =~= all);
        }
    }

    fn status_event(&self, ws: usize, pane: u64) -> (r: Option<Event>)
        ensures
            match r {
                Some(event) => has_info(*self, ws as int, pane) && tells_status(
                    event,
                    *self,
                    (ws as int, pane),
                ),
                None => !has_info(*self, ws as int, pane),
            },
    {
        let terminal = match self.terminal_of(ws, pane) {
            Some(terminal) => terminal,
            None => {
                return None;
            },
        };
        match self.workspaces[ws].pane_state(pane) {
            Some(p) => Some(
                Event::PaneAgentStatusChanged {
                    pane_id: p.public_id.clone(),
                    workspace_id: self.workspaces[ws].id.clone(),
                    agent_status: pane_agent_status(terminal.state, p.seen),
                    title: clone_opt_text(&terminal.presentation.title),
                    display_agent: clone_opt_text(&terminal.presentation.display_agent),
                    state_labels: copy_labels(&terminal.presentation.state_labels),
                },
            ),
            None => None,
        }
    }
}

/// `event` tells how the agent in a pane is doing.
pub open spec fn tells_status(event: Event, session: Session, pane: PaneRef) -> bool {
    let w = session.workspaces@[pane.0];
    let p = w.spec_pane(pane.1)->Some_0;
    let t = session.spec_terminal_of(pane.0, pane.1)->Some_0;
    event matches Event::PaneAgentStatusChanged {
        pane_id,
        workspace_id,
        agent_status,
        title,
        display_agent,
        state_labels,
    } && {
        &&& pane_id == p.public_id
        &&& workspace_id == w.id
        &&& agent_status == status_of(t.state, p.seen)
        &&& title == t.presentation.title
        &&& display_agent == t.presentation.display_agent
        &&& state_labels@ == t.presentation.state_labels@
    }
}

/// The panes of which there is something to say.
pub open spec fn with_info(session: Session, panes: Seq<PaneRef>) -> Seq<PaneRef> {
    panes.filter(|x: PaneRef| has_info(session, x.0, x.1))
}

pub open spec fn refs(panes: Seq<(usize, u64)>) -> Seq<PaneRef> {
    panes.map_values(|p: (usize, u64)| (p.0 as int, p.1))
}

pub proof fn lemma_told_alike(
    before: Seq<Event>,
    events: Seq<Event>,
    a: Session,
    b: Session,
    panes: Seq<PaneRef>,
)
    requires
        tells_alike(a, b),
        panes_told(before, events, a, panes),
    ensures
        panes_told(before, events, b, panes),
{
    lemma_tells_alike(a, b);
    assert forall|i: int| 0 <= i < panes.len() implies tells_pane(
        #[trigger] events[before.len() + i],
        b,
        panes[i],
    ) by {
        assert(tells_pane(events[before.len() + i], a, panes[i]));
    }
}

proof fn lemma_flagged_alike(a: Session, b: Session, ws: int, panes: Seq<Pane>, flags: Seq<bool>)
    requires
        tells_alike(a, b),
    ensures
        flagged_panes(a, ws, panes, flags) == flagged_panes(b, ws, panes, flags),
    decreases panes.len(),
{
    if panes.len() > 0 {
        lemma_flagged_alike(a, b, ws, panes.drop_last(), flags);
        lemma_tells_alike(a, b);
        assert(has_info(a, ws, panes.last().id) == has_info(b, ws, panes.last().id));
    }
}

// ---------------------------------------------------------------------------------------------
// Laws
// ---------------------------------------------------------------------------------------------

/// Something that happens to the metadata of a session: a report on some workspace, or the expiry
/// of what is due.
pub ghost enum MetadataStep {
    Report {
        workspace_id: Seq<char>,
        report: MetadataReport,
        now: u64,
        refused: Option<Refusal>,
    },
    Expire { shown: Seq<PaneRef>, now: u64 },
}

pub open spec fn metadata_step(before: Session, after: Session, step: MetadataStep) -> bool {
    match step {
        MetadataStep::Report { workspace_id, report, now, refused } => metadata_reported(
            before,
            after,
            workspace_id,
            report,
            now,
            refused,
        ),
        MetadataStep::Expire { shown, now } => before.metadata_expires(after, shown, now),
    }
}

/// The sessions that some steps lead through, one after another.
pub open spec fn is_metadata_course(sessions: Seq<Session>, steps: Seq<MetadataStep>) -> bool {
    &&& sessions.len() == steps.len() + 1
    &&& forall|i: int|
        0 <= i < steps.len() ==> #[trigger] metadata_step(sessions[i], sessions[i + 1], steps[i])
}

/// The same workspaces, in the same places.
pub open spec fn same_places(a: Seq<Workspace>, b: Seq<Workspace>) -> bool {
    a.len() == b.len() && forall|i: int| 0 <= i < a.len() ==> (#[trigger] a[i]).id == b[i].id
}

proof fn lemma_same_places(a: Seq<Workspace>, b: Seq<Workspace>, id: Seq<char>)
    requires
        same_places(a, b),
    ensures
        workspace_at(a, id) == workspace_at(b, id),
        workspace_at(a, id) matches Some(ws) ==> 0 <= ws < a.len(),
{
    lemma_workspace_at(a, id);
    lemma_workspace_at(b, id);
    match (workspace_at(a, id), workspace_at(b, id)) {
        (Some(i), Some(j)) => {
            assert(a[i].id == b[i].id);
            assert(a[j].id == b[j].id);
        },
        (Some(i), None) => {
            assert(a[i].id == b[i].id);
        },
        (None, Some(j)) => {
            assert(a[j].id == b[j].id);
        },
        (None, None) => {},
    }
}

proof fn lemma_step_keeps_places(before: Session, after: Session, step: MetadataStep)
    requires
        metadata_step(before, after, step),
    ensures
        same_places(before.workspaces@, after.workspaces@),
{
    match step {
        MetadataStep::Report { workspace_id, report, now, refused } => {
            lemma_same_places(before.workspaces@, before.workspaces@, workspace_id);
        },
        MetadataStep::Expire { shown, now } => {
            let (told, mid) = choose|told: Session, mid: Session|
                #![trigger before.statuses_told(told, shown), told.metadata_expired(mid, after, now)]
                before.statuses_told(told, shown) && told.metadata_expired(mid, after, now);
            assert forall|i: int| 0 <= i < before.workspaces@.len() implies (
            #[trigger] before.workspaces@[i]).id == after.workspaces@[i].id by {
                assert(only_tokens_changed(told.workspaces@[i], mid.workspaces@[i]));
            }
        },
    }
}

/// A number accepted for a workspace is not forgotten, nor replaced by a lower one.
proof fn lemma_step_keeps_numbers(
    before: Session,
    after: Session,
    step: MetadataStep,
    ws: int,
    source: Seq<char>,
    least: u64,
)
    requires
        metadata_step(before, after, step),
        0 <= ws < before.workspaces@.len(),
        last_seq(before.workspaces@[ws].tokens.sequences@, source) matches Some(n) && n >= least,
    ensures
        last_seq(after.workspaces@[ws].tokens.sequences@, source) matches Some(n) && n >= least,
{
    let a = before.workspaces@[ws].tokens;
    let b = after.workspaces@[ws].tokens;
    match step {
        MetadataStep::Report { workspace_id, report, now, refused } => {
            lemma_same_places(before.workspaces@, before.workspaces@, workspace_id);
            if workspace_at(before.workspaces@, workspace_id) == Some(ws) {
                let changed = after.events@.len() != before.events@.len();
                let taken = StoreStep::Report { report, owner: "workspace"@, now, changed, refused };
                let stores = seq![a, b];
                let steps = seq![taken];
                assert(step_taken(stores[0], stores[1], steps[0]));
                assert(is_course(stores, steps));
                lemma_numbers_only_grow(stores, steps, source, least);
            }
        },
        MetadataStep::Expire { shown, now } => {
            let (told, mid) = choose|told: Session, mid: Session|
                #![trigger before.statuses_told(told, shown), told.metadata_expired(mid, after, now)]
                before.statuses_told(told, shown) && told.metadata_expired(mid, after, now);
            assert(only_tokens_changed(told.workspaces@[ws], mid.workspaces@[ws]));
            assert(tokens_expired(a, b, now));
        },
    }
}

proof fn lemma_course_keeps_numbers(
    sessions: Seq<Session>,
    steps: Seq<MetadataStep>,
    ws: int,
    source: Seq<char>,
    least: u64,
)
    requires
        is_metadata_course(sessions, steps),
        0 <= ws < sessions[0].workspaces@.len(),
        last_seq(sessions[0].workspaces@[ws].tokens.sequences@, source) matches Some(n) && n
            >= least,
    ensures
        same_places(sessions[0].workspaces@, sessions.last().workspaces@),
        last_seq(sessions.last().workspaces@[ws].tokens.sequences@, source) matches Some(n) && n
            >= least,
    decreases steps.len(),
{
    if steps.len() > 0 {
        let k = steps.len() - 1;
        let head = sessions.drop_last();
        assert forall|i: int| 0 <= i < steps.drop_last().len() implies #[trigger] metadata_step(
            head[i],
            head[i + 1],
            steps.drop_last()[i],
        ) by {
            assert(metadata_step(sessions[i], sessions[i + 1], steps[i]));
        }
        lemma_course_keeps_numbers(head, steps.drop_last(), ws, source, least);
        assert(head.last() == sessions[k]);
        assert(sessions.last() == sessions[k + 1]);
        assert(metadata_step(sessions[k], sessions[k + 1], steps[k]));
        lemma_step_keeps_places(sessions[k], sessions[k + 1], steps[k]);
        lemma_step_keeps_numbers(sessions[k], sessions[k + 1], steps[k], ws, source, least);
        let a = sessions[0].workspaces@;
        let b = sessions[k].workspaces@;
        let c = sessions[k + 1].workspaces@;
        assert forall|i: int| 0 <= i < a.len() implies (#[trigger] a[i]).id == c[i].id by {
            assert(a[i].id == b[i].id);
            assert(b[i].id == c[i].id);
        }
    }
}

/// Once a report on a workspace was accepted under a number, a valid report of the same producer on
/// it, under that number or a lower one, is answered with success, changes nothing and tells nobody
/// of anything, whatever reports, on this workspace or another, and expiries came between.
pub proof fn law_an_accepted_number_stays_stale_for_its_workspace(
    before: Session,
    sessions: Seq<Session>,
    steps: Seq<MetadataStep>,
    after: Session,
    workspace_id: Seq<char>,
    ws: int,
    first: MetadataReport,
    report: MetadataReport,
    now: u64,
    later: u64,
    refused: Option<Refusal>,
    accepted: u64,
    again: u64,
)
    requires
        workspace_at(before.workspaces@, workspace_id) == Some(ws),
        report_problem(first) is None,
        first.seq == Some(accepted),
        is_fresh(before.workspaces@[ws].tokens.sequences@, trimmed(first.source@), Some(accepted)),
        is_metadata_course(sessions, steps),
        metadata_reported(before, sessions[0], workspace_id, first, now, None),
        report_problem(report) is None,
        trimmed(report.source@) == trimmed(first.source@),
        report.seq == Some(again),
        again <= accepted,
        metadata_reported(sessions.last(), after, workspace_id, report, later, refused),
    ensures
        refused is None,
        after.workspaces@ == sessions.last().workspaces@,
        after.events == sessions.last().events,
        after == (Session { workspaces: after.workspaces, ..sessions.last() }),
{
    let source = trimmed(first.source@);
    let old_tokens = before.workspaces@[ws].tokens;
    let new_tokens = sessions[0].workspaces@[ws].tokens;
    let step = MetadataStep::Report { workspace_id, report: first, now, refused: None };
    assert(metadata_step(before, sessions[0], step));
    lemma_step_keeps_places(before, sessions[0], step);
    lemma_same_places(before.workspaces@, sessions[0].workspaces@, workspace_id);
    let changed = sessions[0].events@.len() != before.events@.len();
    let kept = choose|kept: Seq<TokenPatch>| #[trigger]
        are_kept_tokens(kept, first.tokens@) && reported(
            old_tokens,
            new_tokens,
            first,
            kept,
            "workspace"@,
            now,
            changed,
            None,
        );
    law_accepted_numbers_are_not_accepted_again(
        old_tokens.sequences@,
        new_tokens.sequences@,
        source,
        accepted,
        accepted,
    );
    lemma_course_keeps_numbers(sessions, steps, ws, source, accepted);
    lemma_same_places(sessions[0].workspaces@, sessions.last().workspaces@, workspace_id);
    law_a_report_that_does_not_count_changes_no_session(
        sessions.last(),
        after,
        workspace_id,
        report,
        later,
        refused,
        ws,
    );
}

} // verus!
