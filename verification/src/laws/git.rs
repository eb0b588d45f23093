//! Refreshing repositories: when, for whom, and what each workspace is told.

use vstd::prelude::*;
use crate::git_refresh::{
    after_last_slash, are_items_of, cache_stands, demand_of, distinct_keys, entries_left,
    first_text, is_job_list, is_output, is_refresh_output, is_told, last_component, outcome_entry,
    outcome_snapshot, placed, results_before, targets_of, CacheRow, GitRefresh, GitWorkspace,
    JobOutcome, RefreshDemand, RefreshIntervals, RefreshItem, RefreshJob, RefreshOutput,
    RefreshWork, SpaceToken, TargetView,
};
use crate::paths::{path_of, PathView};
use crate::search::lemma_first_where;

verus! {

/// A refresh is due an interval after the last, while none is running, there is a workspace, and
/// somebody wants to know: the sidebar, or whoever asked for repositories to be looked for.
pub proof fn law_when_a_refresh_is_due(
    git: GitRefresh,
    has_workspaces: bool,
    demand: RefreshDemand,
    interval: u64,
)
    ensures
        ({
            let wanted = git.identity_requested || demand.branch || demand.ahead_behind;
            let deadline = git.spec_deadline(has_workspaces, demand, interval);
            &&& deadline is Some <==> !git.in_flight && has_workspaces && wanted
            &&& deadline matches Some(t) ==> t == git.last_remote_status + interval
        }),
{
}

/// The directory of some workspace is known.
pub open spec fn some_placed(workspaces: Seq<GitWorkspace>) -> bool {
    exists|i: int| 0 <= i < workspaces.len() && (#[trigger] workspaces[i]).identity_cwd is Some
}

proof fn lemma_some_placed(workspaces: Seq<GitWorkspace>)
    ensures
        placed(workspaces).len() > 0 <==> some_placed(workspaces),
{
    let p = |w: GitWorkspace| w.identity_cwd is Some;
    if some_placed(workspaces) {
        let i = choose|i: int|
            0 <= i < workspaces.len() && (#[trigger] workspaces[i]).identity_cwd is Some;
        workspaces.lemma_filter_contains(p, i);
        let k = choose|k: int|
            0 <= k < placed(workspaces).len() && placed(workspaces)[k] == workspaces[i];
    }
    if placed(workspaces).len() > 0 {
        workspaces.lemma_filter_pred(p, 0);
        let first = placed(workspaces)[0];
        assert(placed(workspaces).contains(first));
        workspaces.lemma_filter_contains_rev(p, first);
    }
}

/// A refresh starts exactly when one is due and some workspace's directory is known. From then on
/// it is running, and what was asked for is taken care of; what the sidebar wants is looked up, and
/// the branch also where repositories were asked for.
pub proof fn law_a_due_refresh_starts(
    old: GitRefresh,
    new: GitRefresh,
    now: u64,
    workspaces: Seq<GitWorkspace>,
    demand: RefreshDemand,
    intervals: RefreshIntervals,
    work: Option<RefreshWork>,
)
    requires
        old.started(new, now, workspaces, demand, intervals, work),
    ensures
        ({
            let wanted = old.identity_requested || demand.branch || demand.ahead_behind;
            let due = !old.in_flight && workspaces.len() > 0 && wanted && now
                >= old.last_remote_status + intervals.remote_status;
            &&& work is Some <==> due && some_placed(workspaces)
            &&& work matches Some(w) ==> {
                &&& new.in_flight
                &&& !new.identity_requested
                &&& w.demand.branch == (demand.branch || old.identity_requested)
                &&& w.demand.ahead_behind == demand.ahead_behind
                &&& new.last_remote_status == old.last_remote_status
            }
            &&& !due ==> new == old
            &&& due && work is None ==> !new.in_flight && !new.identity_requested
                && new.last_remote_status == now && new.last_repo_discovery
                == old.last_repo_discovery
            &&& new.cache == old.cache
            &&& new.due_after_in_flight == old.due_after_in_flight
        }),
{
    lemma_some_placed(workspaces);
}

/// Repositories are looked for again when that was asked for, and at the latest an interval after
/// they last were: then no workspace goes by the key it had, and the time is noted. Otherwise a
/// workspace that is where it was goes by the key it had, one that moved by none, and the time of
/// the last search stays.
pub proof fn law_repositories_are_looked_for_in_time(
    old: GitRefresh,
    new: GitRefresh,
    now: u64,
    workspaces: Seq<GitWorkspace>,
    demand: RefreshDemand,
    intervals: RefreshIntervals,
    work: RefreshWork,
    i: int,
)
    requires
        old.started(new, now, workspaces, demand, intervals, Some(work)),
        0 <= i < work.items@.len(),
    ensures
        ({
            let again = old.identity_requested || intervals.repo_discovery == 0 || now
                - old.last_repo_discovery >= intervals.repo_discovery;
            let item = work.items@[i];
            &&& again ==> item.cache_key_hint is None && new.last_repo_discovery == now
            &&& !again ==> new.last_repo_discovery == old.last_repo_discovery
            &&& !again ==> exists|w: int|
                0 <= w < workspaces.len() && (#[trigger] workspaces[w]).id == item.workspace_id
                    && workspaces[w].identity_cwd == Some(item.cwd) && (
                item.cache_key_hint matches Some(key) ==> key == workspaces[w].cached_git_status_key)
                    && (item.cache_key_hint is Some <==> path_of(workspaces[w].cached_identity_cwd@)
                    == path_of(item.cwd@))
        }),
{
    let p = |w: GitWorkspace| w.identity_cwd is Some;
    let ws = placed(workspaces)[i];
    assert(placed(workspaces).contains(ws));
    workspaces.lemma_filter_contains_rev(p, ws);
    let w = choose|w: int| 0 <= w < workspaces.len() && workspaces[w] == ws;
    assert(workspaces[w].id == work.items@[i].workspace_id);
}

/// Every workspace whose directory is known is refreshed, as itself and where it is; no other is.
pub proof fn law_every_placed_workspace_is_refreshed(
    items: Seq<RefreshItem>,
    workspaces: Seq<GitWorkspace>,
    discovery: bool,
    w: int,
)
    requires
        are_items_of(items, workspaces, discovery),
        0 <= w < workspaces.len(),
    ensures
        workspaces[w].identity_cwd matches Some(cwd) ==> exists|i: int|
            0 <= i < items.len() && (#[trigger] items[i]).workspace_id == workspaces[w].id
                && items[i].cwd == cwd,
        items.len() <= workspaces.len(),
{
    let p = |x: GitWorkspace| x.identity_cwd is Some;
    workspaces.lemma_filter_len(p);
    if workspaces[w].identity_cwd is Some {
        workspaces.lemma_filter_contains(p, w);
        let i = choose|i: int|
            0 <= i < placed(workspaces).len() && placed(workspaces)[i] == workspaces[w];
        assert(items[i].workspace_id == workspaces[w].id);
    }
}

/// The sidebar wants branches where some row shows one, and how far ahead and behind they are where
/// some row shows that.
pub proof fn law_rows_say_what_is_wanted(rows: Seq<Vec<SpaceToken>>, i: int, j: int)
    requires
        0 <= i < rows.len(),
        0 <= j < rows[i]@.len(),
    ensures
        rows[i]@[j] == SpaceToken::Branch ==> demand_of(rows).branch,
        rows[i]@[j] == SpaceToken::GitStatus ==> demand_of(rows).ahead_behind,
{
}

/// Where no row shows a branch none is wanted, and likewise for how far ahead and behind.
pub proof fn law_nothing_is_wanted_that_no_row_shows(rows: Seq<Vec<SpaceToken>>)
    ensures
        (forall|i: int, j: int|
            0 <= i < rows.len() && 0 <= j < rows[i]@.len() ==> #[trigger] rows[i]@[j]
                != SpaceToken::Branch) ==> !demand_of(rows).branch,
        (forall|i: int, j: int|
            0 <= i < rows.len() && 0 <= j < rows[i]@.len() ==> #[trigger] rows[i]@[j]
                != SpaceToken::GitStatus) ==> !demand_of(rows).ahead_behind,
{
}

/// A refresh that is asked for is due at once, or as soon as the running one ends; results that
/// found no repository are forgotten and no others.
pub proof fn law_asked_for_refreshes_are_due(
    old: GitRefresh,
    new: GitRefresh,
    now: u64,
    interval: u64,
    row: CacheRow,
)
    requires
        old.marked_due(new, now, interval),
    ensures
        new.in_flight == old.in_flight,
        new.identity_requested == old.identity_requested,
        new.last_repo_discovery == old.last_repo_discovery,
        old.in_flight ==> new.due_after_in_flight && new.last_remote_status
            == old.last_remote_status,
        !old.in_flight ==> !new.due_after_in_flight,
        !old.in_flight && now >= interval ==> new.last_remote_status + interval == now,
        !old.in_flight && now < interval ==> new.last_remote_status == now,
        new.cache@.contains(row) <==> old.cache@.contains(row) && row.entry.fingerprint is Some,
{
    let p = |r: CacheRow| r.entry.fingerprint is Some;
    if new.cache@.contains(row) {
        let k = choose|k: int| 0 <= k < new.cache@.len() && new.cache@[k] == row;
        old.cache@.lemma_filter_pred(p, k);
        old.cache@.lemma_filter_contains_rev(p, row);
    }
    if old.cache@.contains(row) && row.entry.fingerprint is Some {
        let k = choose|k: int| 0 <= k < old.cache@.len() && old.cache@[k] == row;
        old.cache@.lemma_filter_contains(p, k);
    }
}

/// After a refresh nothing is running, and nothing is left over from while it ran.
pub proof fn law_an_ended_refresh_is_over(
    old: GitRefresh,
    new: GitRefresh,
    now: u64,
    interval: u64,
)
    requires
        old.ended(new, now, interval),
    ensures
        !new.in_flight,
        !new.due_after_in_flight,
        new.identity_requested == old.identity_requested,
        !old.due_after_in_flight ==> new.last_remote_status == now && new.cache == old.cache,
{
}

/// A job uses a cached result exactly when every item it serves goes by the key it had and the
/// cache has that key; what it uses is what the cache has.
pub proof fn law_jobs_use_the_cache_when_nothing_moved(
    jobs: Seq<RefreshJob>,
    items: Seq<RefreshItem>,
    cache: Seq<CacheRow>,
    j: int,
    c: int,
)
    requires
        is_job_list(jobs, items, cache),
        0 <= j < jobs.len(),
        0 <= c < cache.len(),
        path_of(cache[c].key@) == path_of(jobs[j].cache_key@),
        forall|d: int|
            0 <= d < c ==> path_of((#[trigger] cache[d]).key@) != path_of(jobs[j].cache_key@),
    ensures
        ({
            let unmoved = forall|i: int|
                0 <= i < items.len() && (#[trigger] items[i]).key() == path_of(jobs[j].cache_key@)
                    ==> items[i].cache_key_hint is Some;
            &&& unmoved ==> jobs[j].cached == Some(cache[c].entry)
            &&& !unmoved ==> jobs[j].cached is None
        }),
{
    let key = path_of(jobs[j].cache_key@);
    let p = |r: CacheRow| path_of(r.key@) == key;
    assert(distinct_keys(items)[j] == key);
    crate::search::lemma_is_first(cache, p, c);
}

/// An item goes by its hint, else by the repository that was found, else by its directory.
pub proof fn law_items_go_by_their_repository(item: RefreshItem)
    ensures
        item.cache_key_hint matches Some(hint) ==> item.key() == path_of(hint@),
        item.cache_key_hint is None ==> (item.discovered_key matches Some(found) ==> item.key()
            == path_of(found@)),
        item.cache_key_hint is None && item.discovered_key is None ==> item.key() == path_of(
            item.cwd@,
        ),
{
}

/// What a workspace is told is what its job found, about itself: its id, its directory, and the
/// label of the repository, or its own directory's where the repository's root has none.
pub proof fn law_workspaces_are_told_what_was_found(
    output: RefreshOutput,
    jobs: Seq<RefreshJob>,
    outcomes: Seq<JobOutcome>,
    demand: RefreshDemand,
    j: int,
    t: int,
)
    requires
        is_output(output, jobs, outcomes, demand),
        0 <= j < jobs.len(),
        0 <= t < jobs[j].targets@.len(),
    ensures
        exists|k: int|
            0 <= k < output.results@.len() && {
                let told = #[trigger] output.results@[k];
                let found = match outcomes[j] {
                    JobOutcome::Cached => jobs[j].cached->Some_0.snapshot,
                    JobOutcome::Probed { snapshot, .. } => snapshot,
                };
                &&& told.workspace_id@ == jobs[j].targets@[t].workspace_id@
                &&& told.cwd@ == jobs[j].targets@[t].cwd@
                &&& told.cache_key@ == jobs[j].cache_key@
                &&& told.branch == found.branch
                &&& told.ahead_behind == found.ahead_behind
                &&& told.space == found.space
                &&& told.demand == demand
                &&& found.auto_label@ != "/"@ ==> told.auto_label@ == found.auto_label@
            },
{
    assert(is_told(output.results@, jobs, outcomes, demand, j, t));
    let k = results_before(jobs, j) + t;
    assert(output.results@[k].cwd@ == jobs[j].targets@[t]@.cwd);
}

/// What a job leaves for the cache is what it used, or what probing gave; a probe may leave
/// nothing.
pub proof fn law_jobs_leave_what_they_found(job: RefreshJob, outcome: JobOutcome)
    ensures
        outcome is Cached ==> outcome_entry(job, outcome) == job.cached,
        outcome matches JobOutcome::Probed { snapshot, entry } ==> outcome_entry(job, outcome)
            == entry && outcome_snapshot(job, outcome) == snapshot,
{
}

proof fn lemma_entries_left(
    jobs: Seq<RefreshJob>,
    outcomes: Seq<JobOutcome>,
    n: int,
    j: int,
)
    requires
        0 <= j < n <= jobs.len(),
    ensures
        outcome_entry(jobs[j], outcomes[j]) matches Some(entry) ==> entries_left(
            jobs,
            outcomes,
            n,
        ).contains((jobs[j].cache_key@, entry)),
        entries_left(jobs, outcomes, n).len() <= n,
    decreases n,
{
    if n > 1 {
        lemma_entries_left(
            jobs,
            outcomes,
            n - 1,
            if j < n - 1 {
                j
            } else {
                0
            },
        );
    }
    let all = entries_left(jobs, outcomes, n);
    let before = entries_left(jobs, outcomes, n - 1);
    if outcome_entry(jobs[j], outcomes[j]) is Some {
        let pair = (jobs[j].cache_key@, outcome_entry(jobs[j], outcomes[j])->Some_0);
        if j == n - 1 {
            assert(all[all.len() - 1] == pair);
        } else {
            let k = choose|k: int| 0 <= k < before.len() && before[k] == pair;
            assert(all[k] == pair);
        }
    }
}

/// Everything that a job leaves reaches the cache, under the job's key.
pub proof fn law_the_cache_gets_what_jobs_leave(
    output: RefreshOutput,
    jobs: Seq<RefreshJob>,
    outcomes: Seq<JobOutcome>,
    demand: RefreshDemand,
    j: int,
)
    requires
        is_output(output, jobs, outcomes, demand),
        0 <= j < jobs.len(),
    ensures
        ({
            let left = match outcomes[j] {
                JobOutcome::Cached => jobs[j].cached,
                JobOutcome::Probed { entry, .. } => entry,
            };
            left matches Some(entry) ==> exists|k: int|
                0 <= k < output.cache_updates@.len() && (#[trigger] output.cache_updates@[k]).key@
                    == jobs[j].cache_key@ && output.cache_updates@[k].entry == entry
        }),
        output.cache_updates@.len() <= jobs.len(),
{
    lemma_entries_left(jobs, outcomes, jobs.len() as int, j);
    let rows = crate::git_refresh::row_views(output.cache_updates@);
    if outcome_entry(jobs[j], outcomes[j]) is Some {
        let pair = (jobs[j].cache_key@, outcome_entry(jobs[j], outcomes[j])->Some_0);
        let k = choose|k: int| 0 <= k < rows.len() && rows[k] == pair;
        assert(output.cache_updates@[k].key@ == jobs[j].cache_key@);
    }
}

/// A miss that is remembered stands until it may be tried again; a result that was found does not
/// stand by itself.
pub proof fn law_misses_stand_for_a_while(job: RefreshJob, now: u64)
    ensures
        job.cached is None ==> !cache_stands(job, now),
        job.cached matches Some(entry) ==> {
            &&& entry.fingerprint is Some || entry.retry_after is None ==> !cache_stands(job, now)
            &&& entry.fingerprint is None ==> (entry.retry_after matches Some(t) ==> (cache_stands(
                job,
                now,
            ) <==> now < t))
        },
{
}

/// A path's last component is what follows its last slash, slashes at its end apart.
pub proof fn law_last_components(path: Seq<char>, name: Seq<char>)
    requires
        name.len() > 0,
        forall|i: int| 0 <= i < name.len() ==> #[trigger] name[i] != '/',
    ensures
        last_component(path.push('/') + name) == name,
        last_component(name) == name,
        last_component(seq!['/']) == seq!['/'],
        path.len() > 0 ==> last_component(path.push('/')) == last_component(path),
{
    let all = path.push('/') + name;
    assert(all.last() == name.last());
    assert(name[name.len() - 1] != '/');
    lemma_after_last_slash(path, name);
    lemma_without_slashes(name);
    if path.len() > 0 {
        assert(path.push('/').drop_last() =~= path);
    }
}

proof fn lemma_after_last_slash(path: Seq<char>, name: Seq<char>)
    requires
        name.len() > 0,
        forall|i: int| 0 <= i < name.len() ==> #[trigger] name[i] != '/',
    ensures
        after_last_slash(path.push('/') + name) == name,
    decreases name.len(),
{
    let all = path.push('/') + name;
    assert(all.last() == name[name.len() - 1]);
    if name.len() == 1 {
        assert(all[all.len() - 2] == '/');
        assert(seq![all.last()] =~= name);
    } else {
        let head = name.drop_last();
        assert forall|i: int| 0 <= i < head.len() implies #[trigger] head[i] != '/' by {
            assert(head[i] == name[i]);
        }
        lemma_after_last_slash(path, head);
        assert(all.drop_last() =~= path.push('/') + head);
        assert(all[all.len() - 2] == name[name.len() - 2]);
        assert(head.push(name.last()) =~= name);
    }
}

proof fn lemma_without_slashes(name: Seq<char>)
    requires
        name.len() > 0,
        forall|i: int| 0 <= i < name.len() ==> #[trigger] name[i] != '/',
    ensures
        after_last_slash(name) == name,
    decreases name.len(),
{
    if name.len() > 1 {
        let head = name.drop_last();
        assert forall|i: int| 0 <= i < head.len() implies #[trigger] head[i] != '/' by {
            assert(head[i] == name[i]);
        }
        lemma_without_slashes(head);
        assert(name[name.len() - 2] != '/');
        assert(name[name.len() - 1] != '/');
        assert(head.push(name.last()) =~= name);
    }
}

/// There is one job for each repository that some item goes by, and no other.
pub proof fn law_each_repository_has_one_job(items: Seq<RefreshItem>, key: PathView, a: int, b: int)
    ensures
        distinct_keys(items).contains(key) <==> exists|i: int|
            0 <= i < items.len() && (#[trigger] items[i]).key() == key,
        0 <= a < b < distinct_keys(items).len() ==> distinct_keys(items)[a]
            != distinct_keys(items)[b],
    decreases items.len(),
{
    let all = distinct_keys(items);
    if items.len() > 0 {
        let head = items.drop_last();
        let n = items.len() - 1;
        let before = distinct_keys(head);
        law_each_repository_has_one_job(head, key, a, b);
        assert(items[n] == items.last());
        if before.contains(key) {
            let i = choose|i: int| 0 <= i < head.len() && (#[trigger] head[i]).key() == key;
            assert(items[i] == head[i]);
            let k = choose|k: int| 0 <= k < before.len() && before[k] == key;
            assert(all[k] == key);
        }
        if exists|i: int| 0 <= i < items.len() && (#[trigger] items[i]).key() == key {
            let i = choose|i: int| 0 <= i < items.len() && (#[trigger] items[i]).key() == key;
            if i < n {
                assert(head[i] == items[i]);
            } else if !before.contains(key) {
                assert(all[before.len() as int] == key);
            }
        }
        if all.contains(key) {
            let k = choose|k: int| 0 <= k < all.len() && all[k] == key;
            if k < before.len() {
                assert(before[k] == key);
            } else {
                assert(items[n].key() == key);
            }
        }
        if 0 <= a < b < all.len() && b == before.len() {
            assert(before.contains(before[a]));
        }
    } else {
        assert(all.len() == 0);
    }
}

/// A job serves every item that goes by its repository, and no other.
pub proof fn law_jobs_serve_their_items(items: Seq<RefreshItem>, key: PathView, target: TargetView)
    ensures
        targets_of(items, key).contains(target) <==> exists|i: int|
            0 <= i < items.len() && (#[trigger] items[i]).key() == key && items[i].workspace_id@
                == target.workspace_id && items[i].cwd@ == target.cwd,
    decreases items.len(),
{
    let all = targets_of(items, key);
    if items.len() > 0 {
        let head = items.drop_last();
        let n = items.len() - 1;
        let before = targets_of(head, key);
        law_jobs_serve_their_items(head, key, target);
        assert(items[n] == items.last());
        if before.contains(target) {
            let i = choose|i: int|
                0 <= i < head.len() && (#[trigger] head[i]).key() == key && head[i].workspace_id@
                    == target.workspace_id && head[i].cwd@ == target.cwd;
            assert(items[i] == head[i]);
            let k = choose|k: int| 0 <= k < before.len() && before[k] == target;
            assert(all[k] == target);
        }
        if exists|i: int|
            0 <= i < items.len() && (#[trigger] items[i]).key() == key && items[i].workspace_id@
                == target.workspace_id && items[i].cwd@ == target.cwd {
            let i = choose|i: int|
                0 <= i < items.len() && (#[trigger] items[i]).key() == key && items[i].workspace_id@
                    == target.workspace_id && items[i].cwd@ == target.cwd;
            if i < n {
                assert(head[i] == items[i]);
            } else {
                assert(all[before.len() as int] == target);
            }
        }
        if all.contains(target) {
            let k = choose|k: int| 0 <= k < all.len() && all[k] == target;
            if k < before.len() {
                assert(before[k] == target);
            } else {
                assert(items[n].key() == key);
            }
        }
    } else {
        assert(all.len() == 0);
    }
}

/// A repository is written as the first item that goes by it writes it.
pub proof fn law_repositories_are_written_as_first_met(items: Seq<RefreshItem>, key: PathView, i: int)
    requires
        0 <= i < items.len(),
        items[i].key() == key,
        forall|k: int| 0 <= k < i ==> (#[trigger] items[k]).key() != key,
    ensures
        items[i].cache_key_hint matches Some(hint) ==> first_text(items, key) == hint@,
        items[i].cache_key_hint is None ==> (items[i].discovered_key matches Some(found)
            ==> first_text(items, key) == found@),
        items[i].cache_key_hint is None && items[i].discovered_key is None ==> first_text(items, key)
            == items[i].cwd@,
    decreases items.len(),
{
    let head = items.drop_last();
    let n = items.len() - 1;
    law_each_repository_has_one_job(head, key, 0, 0);
    if i < n {
        assert(head[i] == items[i]);
        assert forall|k: int| 0 <= k < i implies (#[trigger] head[k]).key() != key by {
            assert(head[k] == items[k]);
        }
        law_repositories_are_written_as_first_met(head, key, i);
    } else {
        assert(!distinct_keys(head).contains(key)) by {
            if distinct_keys(head).contains(key) {
                let k = choose|k: int| 0 <= k < head.len() && (#[trigger] head[k]).key() == key;
                assert(items[k] == head[k]);
            }
        }
    }
}

/// Each job is for its repository: the one it is written as, the items that go by it, and no others.
pub proof fn law_jobs_are_for_their_repository(
    jobs: Seq<RefreshJob>,
    items: Seq<RefreshItem>,
    cache: Seq<CacheRow>,
    j: int,
)
    requires
        is_job_list(jobs, items, cache),
        0 <= j < jobs.len(),
    ensures
        jobs.len() == distinct_keys(items).len(),
        path_of(jobs[j].cache_key@) == distinct_keys(items)[j],
        jobs[j].cache_key@ == first_text(items, distinct_keys(items)[j]),
        jobs[j].targets@.len() == targets_of(items, distinct_keys(items)[j]).len(),
        forall|t: int|
            0 <= t < jobs[j].targets@.len() ==> (#[trigger] jobs[j].targets@[t])@ == targets_of(
                items,
                distinct_keys(items)[j],
            )[t],
{
    let key = distinct_keys(items)[j];
    assert(jobs[j].cache_key@ == first_text(items, key));
    assert(crate::git_refresh::target_views(jobs[j].targets@) == targets_of(items, key));
    assert forall|t: int| 0 <= t < jobs[j].targets@.len() implies (
    #[trigger] jobs[j].targets@[t])@ == targets_of(items, key)[t] by {
        assert(crate::git_refresh::target_views(jobs[j].targets@)[t] == jobs[j].targets@[t]@);
    }
}

/// Results are counted job by job, one for each workspace that a job serves.
pub proof fn law_results_are_counted(jobs: Seq<RefreshJob>, n: int)
    requires
        0 <= n,
    ensures
        results_before(jobs, 0) == 0,
        results_before(jobs, n + 1) == results_before(jobs, n) + jobs[n].targets@.len(),
{
}

/// Every workspace that was to be refreshed is told something, about the directory it is in.
pub proof fn law_every_item_is_told_of(
    output: RefreshOutput,
    items: Seq<RefreshItem>,
    cache: Seq<CacheRow>,
    outcomes: Seq<JobOutcome>,
    demand: RefreshDemand,
    i: int,
)
    requires
        is_refresh_output(output, items, cache, outcomes, demand),
        0 <= i < items.len(),
    ensures
        exists|k: int|
            0 <= k < output.results@.len() && (#[trigger] output.results@[k]).workspace_id@
                == items[i].workspace_id@ && output.results@[k].cwd@ == items[i].cwd@
                && output.results@[k].demand == demand && path_of(output.results@[k].cache_key@)
                == items[i].key(),
{
    let jobs = choose|jobs: Seq<RefreshJob>| #[trigger]
        is_job_list(jobs, items, cache) && is_output(output, jobs, outcomes, demand);
    let key = items[i].key();
    law_each_repository_has_one_job(items, key, 0, 0);
    let j = choose|j: int| 0 <= j < distinct_keys(items).len() && distinct_keys(items)[j] == key;
    law_jobs_are_for_their_repository(jobs, items, cache, j);
    law_jobs_serve_their_items(items, key, items[i].target());
    let all = targets_of(items, key);
    let t = choose|t: int| 0 <= t < all.len() && all[t] == items[i].target();
    assert(jobs[j].targets@[t]@ == all[t]);
    law_workspaces_are_told_what_was_found(output, jobs, outcomes, demand, j, t);
    assert(is_told(output.results@, jobs, outcomes, demand, j, t));
}

/// A job has no cached result where the cache has none under its repository.
pub proof fn law_jobs_without_a_cached_result(
    jobs: Seq<RefreshJob>,
    items: Seq<RefreshItem>,
    cache: Seq<CacheRow>,
    j: int,
)
    requires
        is_job_list(jobs, items, cache),
        0 <= j < jobs.len(),
        forall|c: int|
            0 <= c < cache.len() ==> path_of((#[trigger] cache[c]).key@) != path_of(
                jobs[j].cache_key@,
            ),
    ensures
        jobs[j].cached is None,
{
    broadcast use lemma_first_where;

    assert(path_of(jobs[j].cache_key@) == distinct_keys(items)[j]);
}

} // verus!
