//! Refreshing what the sidebar shows of each workspace's repository.
//!
//! Probing a repository is outside work. Here is decided when a refresh is due, which workspaces
//! share one probe, and what each workspace is told.

use vstd::prelude::*;
use vstd::string::*;
use crate::paths::{path_of, same_path, PathView};
use crate::search::{first_where, lemma_first_where, lemma_is_first, retain_marked, sum_of};
use crate::text::{chars_of, clone_opt_text, same_text};

verus! {

/// What the sidebar wants to know of repositories.
#[derive(Clone, Copy, Debug, PartialEq, Eq, Structural)]
pub struct RefreshDemand {
    pub branch: bool,
    pub ahead_behind: bool,
}

/// A token of a row in the sidebar's list of workspaces.
#[derive(Clone, Copy, Debug, PartialEq, Eq, Structural)]
pub enum SpaceToken {
    Workspace,
    Branch,
    GitStatus,
    /// A metadata token, shown under its own name whatever that is.
    Custom,
}

#[derive(Debug)]
pub struct GitSpace {
    pub key: String,
    pub checkout_key: String,
    pub repo_name: String,
    pub repo_root: String,
    pub is_linked_worktree: bool,
}

/// What probing a repository found.
#[derive(Debug)]
pub struct StatusSnapshot {
    pub auto_label: String,
    pub branch: Option<String>,
    pub ahead_behind: Option<(u32, u32)>,
    pub space: Option<GitSpace>,
}

#[derive(Debug)]
pub struct CacheEntry {
    /// What the repository looked like; none where there was no repository.
    pub fingerprint: Option<u64>,
    pub retry_after: Option<u64>,
    pub snapshot: StatusSnapshot,
}

#[derive(Debug)]
pub struct CacheRow {
    pub key: String,
    pub entry: CacheEntry,
}

/// What is known of a workspace's place in the file system.
#[derive(Debug)]
pub struct GitWorkspace {
    pub id: String,
    pub identity_cwd: Option<String>,
    pub cached_identity_cwd: String,
    pub cached_git_status_key: String,
}

/// A workspace to refresh.
#[derive(Debug)]
pub struct RefreshItem {
    pub workspace_id: String,
    pub cwd: String,
    /// The key it went by last time, where that still holds.
    pub cache_key_hint: Option<String>,
    /// The key that looking for a repository found. Not looked at where there is a hint.
    pub discovered_key: Option<String>,
}

#[derive(Debug)]
pub struct RefreshTarget {
    pub workspace_id: String,
    pub cwd: String,
}

/// One probe, for all the workspaces that share its key.
#[derive(Debug)]
pub struct RefreshJob {
    pub cache_key: String,
    pub cached: Option<CacheEntry>,
    pub targets: Vec<RefreshTarget>,
}

/// What came of a job: the cached result still stands, or the repository was probed.
#[derive(Debug)]
pub enum JobOutcome {
    Cached,
    Probed { snapshot: StatusSnapshot, entry: Option<CacheEntry> },
}

/// What a workspace is told.
#[derive(Debug)]
pub struct WorkspaceGitStatus {
    pub workspace_id: String,
    pub cwd: String,
    pub cache_key: String,
    pub auto_label: String,
    pub branch: Option<String>,
    pub ahead_behind: Option<(u32, u32)>,
    pub space: Option<GitSpace>,
    pub demand: RefreshDemand,
}

#[derive(Debug)]
pub struct RefreshOutput {
    pub results: Vec<WorkspaceGitStatus>,
    pub cache_updates: Vec<CacheRow>,
}

/// The work a refresh starts.
#[derive(Debug)]
pub struct RefreshWork {
    pub items: Vec<RefreshItem>,
    pub demand: RefreshDemand,
}

/// How long results hold.
#[derive(Clone, Copy, Debug, PartialEq, Eq, Structural)]
pub struct RefreshIntervals {
    pub remote_status: u64,
    pub repo_discovery: u64,
}

#[derive(Debug)]
pub struct GitRefresh {
    pub in_flight: bool,
    /// Another refresh was asked for while one was running.
    pub due_after_in_flight: bool,
    pub identity_requested: bool,
    pub last_remote_status: u64,
    pub last_repo_discovery: u64,
    pub cache: Vec<CacheRow>,
}

pub ghost struct TargetView {
    pub workspace_id: Seq<char>,
    pub cwd: Seq<char>,
}

impl View for RefreshTarget {
    type V = TargetView;

    open spec fn view(&self) -> TargetView {
        TargetView { workspace_id: self.workspace_id@, cwd: self.cwd@ }
    }
}

pub open spec fn target_views(targets: Seq<RefreshTarget>) -> Seq<TargetView> {
    targets.map_values(|t: RefreshTarget| t@)
}

impl RefreshItem {
    /// The path an item goes by, as it is written: its hint, else what was discovered, else its
    /// directory.
    pub open spec fn key_text(&self) -> Seq<char> {
        match (self.cache_key_hint, self.discovered_key) {
            (Some(hint), _) => hint@,
            (None, Some(found)) => found@,
            (None, None) => self.cwd@,
        }
    }

    /// The path an item goes by, however it is written.
    pub open spec fn key(&self) -> PathView {
        path_of(self.key_text())
    }

    pub open spec fn target(&self) -> TargetView {
        TargetView { workspace_id: self.workspace_id@, cwd: self.cwd@ }
    }
}

/// The keys of the items, each once however it is written, in the order in which they first come.
pub open spec fn distinct_keys(items: Seq<RefreshItem>) -> Seq<PathView>
    decreases items.len(),
{
    if items.len() == 0 {
        Seq::empty()
    } else {
        let before = distinct_keys(items.drop_last());
        if before.contains(items.last().key()) {
            before
        } else {
            before.push(items.last().key())
        }
    }
}

/// How a key is written by the first item that goes by it.
pub open spec fn first_text(items: Seq<RefreshItem>, key: PathView) -> Seq<char>
    decreases items.len(),
{
    if items.len() == 0 {
        Seq::empty()
    } else if items.last().key() == key && !distinct_keys(items.drop_last()).contains(key) {
        items.last().key_text()
    } else {
        first_text(items.drop_last(), key)
    }
}

/// The items of a key, in order.
pub open spec fn targets_of(items: Seq<RefreshItem>, key: PathView) -> Seq<TargetView>
    decreases items.len(),
{
    if items.len() == 0 {
        Seq::empty()
    } else if items.last().key() == key {
        targets_of(items.drop_last(), key).push(items.last().target())
    } else {
        targets_of(items.drop_last(), key)
    }
}

/// No item of the key needs its repository looked for again.
pub open spec fn all_hinted(items: Seq<RefreshItem>, key: PathView) -> bool {
    forall|i: int|
        0 <= i < items.len() && (#[trigger] items[i]).key() == key ==> items[i].cache_key_hint is Some
}

pub open spec fn cached_under(cache: Seq<CacheRow>, key: PathView) -> Option<CacheEntry> {
    match first_where(cache, |r: CacheRow| path_of(r.key@) == key) {
        Some(i) => Some(cache[i].entry),
        None => None,
    }
}

/// One job for each key. A job may use the cached result only where no item of the key asks for
/// its repository to be looked for again.
pub open spec fn is_job_list(jobs: Seq<RefreshJob>, items: Seq<RefreshItem>, cache: Seq<CacheRow>) -> bool {
    &&& jobs.len() == distinct_keys(items).len()
    &&& forall|j: int|
        0 <= j < jobs.len() ==> {
            let key = distinct_keys(items)[j];
            &&& path_of((#[trigger] jobs[j]).cache_key@) == key
            &&& jobs[j].cache_key@ == first_text(items, key)
            &&& target_views(jobs[j].targets@) == targets_of(items, key)
            &&& jobs[j].cached == if all_hinted(items, key) {
                cached_under(cache, key)
            } else {
                None
            }
        }
}

/// The last component of a path; the whole where it has none.
pub open spec fn last_component(path: Seq<char>) -> Seq<char>
    decreases path.len(),
{
    if path.len() > 1 && path.last() == '/' {
        last_component(path.drop_last())
    } else {
        after_last_slash(path)
    }
}

pub open spec fn after_last_slash(path: Seq<char>) -> Seq<char>
    decreases path.len(),
{
    if path.len() <= 1 || path.last() == '/' {
        if path.len() == 1 {
            path
        } else {
            Seq::empty()
        }
    } else if path[path.len() - 2] == '/' {
        seq![path.last()]
    } else {
        after_last_slash(path.drop_last()).push(path.last())
    }
}

impl StatusSnapshot {
    /// The label of a workspace that has no name of its own: the repository's, but the root
    /// directory's gives way to the directory the workspace is in.
    pub open spec fn label_in(&self, cwd: Seq<char>) -> Seq<char> {
        if self.auto_label@ == "/"@ {
            last_component(cwd)
        } else {
            self.auto_label@
        }
    }

    /// `status` tells `target` what `self` found.
    pub open spec fn tells(
        &self,
        status: WorkspaceGitStatus,
        target: TargetView,
        key: Seq<char>,
        demand: RefreshDemand,
    ) -> bool {
        &&& status.workspace_id@ == target.workspace_id
        &&& status.cwd@ == target.cwd
        &&& status.cache_key@ == key
        &&& status.auto_label@ == self.label_in(target.cwd)
        &&& status.branch == self.branch
        &&& status.ahead_behind == self.ahead_behind
        &&& status.space == self.space
        &&& status.demand == demand
    }
}

/// The snapshot a job ends with.
pub open spec fn outcome_snapshot(job: RefreshJob, outcome: JobOutcome) -> StatusSnapshot {
    match outcome {
        JobOutcome::Cached => job.cached->Some_0.snapshot,
        JobOutcome::Probed { snapshot, .. } => snapshot,
    }
}

/// The entry a job leaves for the cache.
pub open spec fn outcome_entry(job: RefreshJob, outcome: JobOutcome) -> Option<CacheEntry> {
    match outcome {
        JobOutcome::Cached => job.cached,
        JobOutcome::Probed { entry, .. } => entry,
    }
}

/// Every outcome says what it must: a job without a cached result cannot have used it.
pub open spec fn outcomes_fit(jobs: Seq<RefreshJob>, outcomes: Seq<JobOutcome>) -> bool {
    &&& outcomes.len() == jobs.len()
    &&& forall|j: int|
        0 <= j < jobs.len() ==> ((#[trigger] outcomes[j]) is Cached ==> jobs[j].cached is Some)
}

/// There is an outcome for each job that the items make, and only one that may use the cached
/// result says that it did.
pub open spec fn outcomes_possible(
    items: Seq<RefreshItem>,
    cache: Seq<CacheRow>,
    outcomes: Seq<JobOutcome>,
) -> bool {
    let keys = distinct_keys(items);
    &&& outcomes.len() == keys.len()
    &&& forall|j: int|
        0 <= j < keys.len() ==> ((#[trigger] outcomes[j]) is Cached ==> all_hinted(items, keys[j])
            && cached_under(cache, keys[j]) is Some)
}

/// The number of results of the first `n` jobs.
pub open spec fn results_before(jobs: Seq<RefreshJob>, n: int) -> int
    decreases n,
{
    if n <= 0 {
        0
    } else {
        results_before(jobs, n - 1) + jobs[n - 1].targets@.len()
    }
}

/// Target `t` of job `j` is told what the job found, in its turn.
pub open spec fn is_told(
    results: Seq<WorkspaceGitStatus>,
    jobs: Seq<RefreshJob>,
    outcomes: Seq<JobOutcome>,
    demand: RefreshDemand,
    j: int,
    t: int,
) -> bool {
    &&& 0 <= results_before(jobs, j) + t < results.len()
    &&& outcome_snapshot(jobs[j], outcomes[j]).tells(
        results[results_before(jobs, j) + t],
        jobs[j].targets@[t]@,
        jobs[j].cache_key@,
        demand,
    )
}

/// Each target of the first `n` jobs is told what its job found.
pub open spec fn results_tell(
    results: Seq<WorkspaceGitStatus>,
    jobs: Seq<RefreshJob>,
    outcomes: Seq<JobOutcome>,
    demand: RefreshDemand,
    n: int,
) -> bool {
    forall|j: int, t: int|
        0 <= j < n && 0 <= t < jobs[j].targets@.len() ==> #[trigger] is_told(
            results,
            jobs,
            outcomes,
            demand,
            j,
            t,
        )
}

/// The entries that the first `n` jobs leave for the cache, under their keys.
pub open spec fn entries_left(jobs: Seq<RefreshJob>, outcomes: Seq<JobOutcome>, n: int) -> Seq<
    (Seq<char>, CacheEntry),
>
    decreases n,
{
    if n <= 0 {
        Seq::empty()
    } else {
        match outcome_entry(jobs[n - 1], outcomes[n - 1]) {
            Some(entry) => entries_left(jobs, outcomes, n - 1).push(
                (jobs[n - 1].cache_key@, entry),
            ),
            None => entries_left(jobs, outcomes, n - 1),
        }
    }
}

pub open spec fn row_views(rows: Seq<CacheRow>) -> Seq<(Seq<char>, CacheEntry)> {
    rows.map_values(|r: CacheRow| (r.key@, r.entry))
}

/// What the configured rows want to know.
pub open spec fn demand_of(rows: Seq<Vec<SpaceToken>>) -> RefreshDemand {
    RefreshDemand {
        branch: exists|i: int, j: int|
            0 <= i < rows.len() && 0 <= j < rows[i]@.len() && #[trigger] rows[i]@[j]
                == SpaceToken::Branch,
        ahead_behind: exists|i: int, j: int|
            0 <= i < rows.len() && 0 <= j < rows[i]@.len() && #[trigger] rows[i]@[j]
                == SpaceToken::GitStatus,
    }
}

/// The item of a workspace whose directory is known.
pub open spec fn is_item_of(item: RefreshItem, ws: GitWorkspace, discovery: bool) -> bool {
    &&& item.workspace_id == ws.id
    &&& Some(item.cwd) == ws.identity_cwd
    &&& item.cache_key_hint == if !discovery && path_of(ws.cached_identity_cwd@) == path_of(
        item.cwd@,
    ) {
        Some(ws.cached_git_status_key)
    } else {
        None
    }
    &&& item.discovered_key is None
}

/// The workspaces whose directory is known, in order.
pub open spec fn placed(ws: Seq<GitWorkspace>) -> Seq<GitWorkspace> {
    ws.filter(|w: GitWorkspace| w.identity_cwd is Some)
}

pub open spec fn are_items_of(items: Seq<RefreshItem>, ws: Seq<GitWorkspace>, discovery: bool) -> bool {
    &&& items.len() == placed(ws).len()
    &&& forall|i: int|
        0 <= i < items.len() ==> is_item_of(#[trigger] items[i], placed(ws)[i], discovery)
}

/// The configured demand.
pub fn git_refresh_demand(rows: &Vec<Vec<SpaceToken>>) -> (r: RefreshDemand)
    ensures
        r == demand_of(rows@),
{
    let mut branch = false;
    let mut ahead_behind = false;
    let mut i: usize = 0;
    while i < rows.len()
        invariant
            i <= rows@.len(),
            branch <==> exists|x: int, y: int|
                0 <= x < i && 0 <= y < rows@[x]@.len() && #[trigger] rows@[x]@[y]
                    == SpaceToken::Branch,
            ahead_behind <==> exists|x: int, y: int|
                0 <= x < i && 0 <= y < rows@[x]@.len() && #[trigger] rows@[x]@[y]
                    == SpaceToken::GitStatus,
        decreases rows@.len() - i,
    {
        let row = &rows[i];
        let ghost branch_before = branch;
        let ghost ahead_before = ahead_behind;
        let mut j: usize = 0;
        while j < row.len()
            invariant
                i < rows@.len(),
                row@ == rows@[i as int]@,
                j <= row@.len(),
                branch <==> (branch_before || exists|y: int|
                    0 <= y < j && #[trigger] rows@[i as int]@[y] == SpaceToken::Branch),
                ahead_behind <==> (ahead_before || exists|y: int|
                    0 <= y < j && #[trigger] rows@[i as int]@[y] == SpaceToken::GitStatus),
            decreases row@.len() - j,
        {
            proof {
                assert(rows@[i as int]@[j as int] == row@[j as int]);
            }
            match row[j] {
                SpaceToken::Branch => {
                    branch = true;
                },
                SpaceToken::GitStatus => {
                    ahead_behind = true;
                },
                _ => {},
            }
            j = j + 1;
        }
        i = i + 1;
    }
    RefreshDemand { branch, ahead_behind }
}

/// The workspaces to refresh, with the keys they went by where those still hold.
pub fn workspace_git_refresh_items(workspaces: &Vec<GitWorkspace>, discovery: bool) -> (r: Vec<
    RefreshItem,
>)
    ensures
        are_items_of(r@, workspaces@, discovery),
{
    let mut items: Vec<RefreshItem> = Vec::new();
    let mut i: usize = 0;
    proof {
        reveal(Seq::filter);
    }
    while i < workspaces.len()
        invariant
            i <= workspaces@.len(),
            are_items_of(items@, workspaces@.take(i as int), discovery),
        decreases workspaces@.len() - i,
    {
        let ws = &workspaces[i];
        let ghost before = items@;
        proof {
            reveal(Seq::filter);
            assert(workspaces@.take(i + 1).drop_last() =~= workspaces@.take(i as int));
        }
        match &ws.identity_cwd {
            Some(cwd) => {
                let hint = if !discovery && same_path(
                    ws.cached_identity_cwd.as_str(),
                    cwd.as_str(),
                ) {
                    Some(ws.cached_git_status_key.clone())
                } else {
                    None
                };
                items.push(
                    RefreshItem {
                        workspace_id: ws.id.clone(),
                        cwd: cwd.clone(),
                        cache_key_hint: hint,
                        discovered_key: None,
                    },
                );
            },
            None => {},
        }
        i = i + 1;
    }
    proof {
        assert(workspaces@.take(i as int) =~= workspaces@);
    }
    items
}

fn copy_space(space: &Option<GitSpace>) -> (r: Option<GitSpace>)
    ensures
        r == *space,
{
    match space {
        Some(s) => Some(
            GitSpace {
                key: s.key.clone(),
                checkout_key: s.checkout_key.clone(),
                repo_name: s.repo_name.clone(),
                repo_root: s.repo_root.clone(),
                is_linked_worktree: s.is_linked_worktree,
            },
        ),
        None => None,
    }
}

fn copy_snapshot(s: &StatusSnapshot) -> (r: StatusSnapshot)
    ensures
        r == *s,
{
    StatusSnapshot {
        auto_label: s.auto_label.clone(),
        branch: clone_opt_text(&s.branch),
        ahead_behind: s.ahead_behind,
        space: copy_space(&s.space),
    }
}

fn copy_entry(e: &CacheEntry) -> (r: CacheEntry)
    ensures
        r == *e,
{
    CacheEntry {
        fingerprint: e.fingerprint,
        retry_after: e.retry_after,
        snapshot: copy_snapshot(&e.snapshot),
    }
}

/// The same rows, for a refresh in the background to work on.
pub fn copy_cache(cache: &Vec<CacheRow>) -> (r: Vec<CacheRow>)
    ensures
        r@ == cache@,
{
    let mut r: Vec<CacheRow> = Vec::new();
    let mut i: usize = 0;
    while i < cache.len()
        invariant
            i <= cache@.len(),
            r@ == cache@.take(i as int),
        decreases cache@.len() - i,
    {
        r.push(CacheRow { key: cache[i].key.clone(), entry: copy_entry(&cache[i].entry) });
        i = i + 1;
        proof {
            assert(cache@.take(i as int) =~= cache@.take(i - 1).push(cache@[i - 1]));
        }
    }
    proof {
        assert(cache@.take(i as int) =~= cache@);
    }
    r
}

#[verifier::loop_isolation(false)]
fn look_up(cache: &Vec<CacheRow>, key: &str) -> (r: Option<CacheEntry>)
    ensures
        r == cached_under(cache@, path_of(key@)),
{
    let ghost p = |r: CacheRow| path_of(r.key@) == path_of(key@);
    let mut i: usize = 0;
    while i < cache.len()
        invariant
            i <= cache@.len(),
            forall|j: int| 0 <= j < i ==> path_of((#[trigger] cache@[j]).key@) != path_of(key@),
        decreases cache@.len() - i,
    {
        if same_path(cache[i].key.as_str(), key) {
            proof {
                lemma_is_first(cache@, p, i as int);
            }
            return Some(copy_entry(&cache[i].entry));
        }
        i = i + 1;
    }
    proof {
        lemma_first_where(cache@, p);
    }
    None
}

proof fn lemma_distinct_keys(items: Seq<RefreshItem>)
    ensures
        forall|i: int, j: int|
            0 <= i < j < distinct_keys(items).len() ==> distinct_keys(items)[i] != distinct_keys(
                items,
            )[j],
        forall|i: int|
            0 <= i < items.len() ==> distinct_keys(items).contains((#[trigger] items[i]).key()),
    decreases items.len(),
{
    if items.len() > 0 {
        let head = items.drop_last();
        lemma_distinct_keys(head);
        let before = distinct_keys(head);
        let all = distinct_keys(items);
        let key = items.last().key();
        assert forall|i: int| 0 <= i < items.len() implies all.contains(
            (#[trigger] items[i]).key(),
        ) by {
            if i < head.len() {
                assert(head[i] == items[i]);
                let k = choose|k: int| 0 <= k < before.len() && before[k] == items[i].key();
                assert(all[k] == before[k]);
            } else if before.contains(key) {
                assert(all == before);
            } else {
                assert(all[before.len() as int] == key);
            }
        }
    }
}

proof fn lemma_no_item_no_target(items: Seq<RefreshItem>, key: PathView)
    requires
        forall|i: int| 0 <= i < items.len() ==> (#[trigger] items[i]).key() != key,
    ensures
        targets_of(items, key) == Seq::<TargetView>::empty(),
    decreases items.len(),
{
    if items.len() > 0 {
        assert forall|i: int| 0 <= i < items.drop_last().len() implies (
        #[trigger] items.drop_last()[i]).key() != key by {
            assert(items[i].key() != key);
        }
        lemma_no_item_no_target(items.drop_last(), key);
        assert(items[items.len() - 1].key() != key);
    }
}

/// One job for each key.
pub fn deduplicate_git_refresh_items(items: Vec<RefreshItem>, cache: &Vec<CacheRow>) -> (r: Vec<
    RefreshJob,
>)
    ensures
        is_job_list(r@, items@, cache@),
{
    let mut jobs: Vec<RefreshJob> = Vec::new();
    let mut i: usize = 0;
    while i < items.len()
        invariant
            i <= items@.len(),
            is_job_list(jobs@, items@.take(i as int), cache@),
        decreases items@.len() - i,
    {
        let item = &items[i];
        let ghost done = items@.take(i as int);
        let ghost next = items@.take(i + 1);
        let ghost keys = distinct_keys(done);
        let reconcile = item.cache_key_hint.is_none();
        let cache_key: String = match &item.cache_key_hint {
            Some(hint) => hint.clone(),
            None => match &item.discovered_key {
                Some(found) => found.clone(),
                None => item.cwd.clone(),
            },
        };
        let target = RefreshTarget {
            workspace_id: item.workspace_id.clone(),
            cwd: item.cwd.clone(),
        };
        proof {
            assert(next.drop_last() =~= done);
            assert(next.last() == *item);
            assert(cache_key@ == item.key_text());
            assert(target@ == item.target());
            lemma_distinct_keys(done);
        }
        let ghost before = jobs@;
        let ghost key_now = path_of(cache_key@);
        let mut at: usize = 0;
        while at < jobs.len() && !same_path(jobs[at].cache_key.as_str(), cache_key.as_str())
            invariant
                at <= jobs@.len(),
                jobs@ == before,
                key_now == path_of(cache_key@),
                forall|j: int| 0 <= j < at ==> path_of((#[trigger] jobs@[j]).cache_key@) != key_now,
            decreases jobs@.len() - at,
        {
            at = at + 1;
        }
        if at < jobs.len() {
            proof {
                assert(keys[at as int] == key_now);
                assert(keys.contains(key_now));
                assert(distinct_keys(next) == keys);
            }
            let mut job = jobs.remove(at);
            let ghost was = job;
            if reconcile {
                job.cached = None;
            }
            job.targets.push(target);
            proof {
                assert(target_views(job.targets@) =~= target_views(was.targets@).push(target@));
                assert(all_hinted(next, key_now) <==> all_hinted(done, key_now) && !reconcile)
                    by {
                    lemma_hinted_step(items@, i as int, key_now);
                }
            }
            jobs.insert(at, job);
            proof {
                assert(jobs@.len() == before.len());
                assert forall|j: int| 0 <= j < jobs@.len() implies {
                    let key = distinct_keys(next)[j];
                    &&& path_of((#[trigger] jobs@[j]).cache_key@) == key
                    &&& jobs@[j].cache_key@ == first_text(next, key)
                    &&& target_views(jobs@[j].targets@) == targets_of(next, key)
                    &&& jobs@[j].cached == if all_hinted(next, key) {
                        cached_under(cache@, key)
                    } else {
                        None
                    }
                } by {
                    let key = distinct_keys(next)[j];
                    if j == at {
                        assert(jobs@[j] == job);
                    } else {
                        assert(jobs@[j] == before[j]);
                        assert(key != key_now);
                        lemma_hinted_step(items@, i as int, key);
                    }
                }
            }
        } else {
            proof {
                if keys.contains(key_now) {
                    let k = choose|k: int| 0 <= k < keys.len() && keys[k] == key_now;
                    assert(path_of(jobs@[k].cache_key@) == keys[k]);
                }
                assert(!keys.contains(key_now));
                assert forall|x: int| 0 <= x < done.len() implies (#[trigger] done[x]).key()
                    != key_now by {
                    assert(keys.contains(done[x].key()));
                }
                lemma_no_item_no_target(done, key_now);
                lemma_hinted_step(items@, i as int, key_now);
            }
            let cached = if reconcile {
                None
            } else {
                look_up(cache, cache_key.as_str())
            };
            let mut targets: Vec<RefreshTarget> = Vec::new();
            targets.push(target);
            proof {
                assert(target_views(targets@) =~= targets_of(done, key_now).push(target@));
            }
            jobs.push(RefreshJob { cache_key, cached, targets });
            proof {
                assert(distinct_keys(next) == keys.push(key_now));
                assert forall|j: int| 0 <= j < jobs@.len() implies {
                    let key = distinct_keys(next)[j];
                    &&& path_of((#[trigger] jobs@[j]).cache_key@) == key
                    &&& jobs@[j].cache_key@ == first_text(next, key)
                    &&& target_views(jobs@[j].targets@) == targets_of(next, key)
                    &&& jobs@[j].cached == if all_hinted(next, key) {
                        cached_under(cache@, key)
                    } else {
                        None
                    }
                } by {
                    let key = distinct_keys(next)[j];
                    if j < before.len() {
                        assert(jobs@[j] == before[j]);
                        assert(key == keys[j]);
                        assert(keys.contains(key));
                        lemma_hinted_step(items@, i as int, key);
                    }
                }
            }
        }
        i = i + 1;
    }
    proof {
        assert(items@.take(i as int) =~= items@);
    }
    jobs
}

proof fn lemma_hinted_step(items: Seq<RefreshItem>, n: int, key: PathView)
    requires
        0 <= n < items.len(),
    ensures
        all_hinted(items.take(n + 1), key) <==> (all_hinted(items.take(n), key) && (items[n].key()
            == key ==> items[n].cache_key_hint is Some)),
{
    let a = items.take(n);
    let b = items.take(n + 1);
    if all_hinted(b, key) {
        assert forall|i: int| 0 <= i < a.len() && (#[trigger] a[i]).key()
            == key implies a[i].cache_key_hint is Some by {
            assert(b[i] == a[i]);
        }
        assert(b[n] == items[n]);
    }
    if all_hinted(a, key) && (items[n].key() == key ==> items[n].cache_key_hint is Some) {
        assert forall|i: int| 0 <= i < b.len() && (#[trigger] b[i]).key()
            == key implies b[i].cache_key_hint is Some by {
            if i < n {
                assert(a[i] == b[i]);
            }
        }
    }
}

proof fn lemma_strip(path: Seq<char>, n: int)
    requires
        1 <= n <= path.len(),
        forall|j: int| n <= j < path.len() ==> #[trigger] path[j] == '/',
        n == 1 || path[n - 1] != '/',
    ensures
        last_component(path) == after_last_slash(path.take(n)),
    decreases path.len() - n,
{
    if n < path.len() {
        assert(path[path.len() - 1] == '/');
        lemma_strip(path.drop_last(), n);
        assert(path.drop_last().take(n) =~= path.take(n));
    } else {
        assert(path.take(n) =~= path);
    }
}

proof fn lemma_after_slash(path: Seq<char>, from: int)
    requires
        1 <= path.len(),
        0 <= from < path.len(),
        from == 0 || path[from - 1] == '/',
        path.len() > 1 ==> (forall|j: int| from <= j < path.len() ==> #[trigger] path[j] != '/'),
    ensures
        after_last_slash(path) == path.skip(from),
    decreases path.len(),
{
    if path.len() == 1 {
        assert(path.skip(0) =~= path);
    } else {
        assert(path[path.len() - 1] != '/');
        if from == path.len() - 1 {
            if from > 0 {
                assert(path.skip(from) =~= seq![path.last()]);
            }
        } else {
            assert(path[path.len() - 2] != '/');
            let head = path.drop_last();
            lemma_after_slash(head, from);
            assert(head.skip(from).push(path.last()) =~= path.skip(from));
        }
    }
}

/// The last component of a path.
pub fn last_path_component(path: &str) -> (r: String)
    ensures
        r@ == last_component(path@),
{
    let chars = chars_of(path);
    if chars.len() == 0 {
        return String::new();
    }
    let mut to: usize = chars.len();
    while to > 1 && chars[to - 1] == '/'
        invariant
            1 <= to <= chars@.len(),
            forall|j: int| to <= j < chars@.len() ==> #[trigger] chars@[j] == '/',
        decreases to,
    {
        to = to - 1;
    }
    let mut from: usize = to - 1;
    while from > 0 && chars[from - 1] != '/'
        invariant
            from < to <= chars@.len(),
            to > 1 ==> chars@[to - 1] != '/',
            forall|j: int| from <= j < to && to > 1 ==> #[trigger] chars@[j] != '/',
        decreases from,
    {
        from = from - 1;
    }
    proof {
        lemma_strip(path@, to as int);
        let head = path@.take(to as int);
        assert forall|j: int| from <= j < head.len() && head.len() > 1 implies #[trigger] head[j]
            != '/' by {
            assert(head[j] == chars@[j]);
        }
        lemma_after_slash(head, from as int);
        assert(head.skip(from as int) =~= path@.subrange(from as int, to as int));
    }
    path.substring_char(from, to).to_owned()
}

fn workspace_status(
    snapshot: &StatusSnapshot,
    target: &RefreshTarget,
    cache_key: &String,
    demand: RefreshDemand,
) -> (r: WorkspaceGitStatus)
    ensures
        snapshot.tells(r, target@, cache_key@, demand),
{
    let auto_label = if same_text(snapshot.auto_label.as_str(), "/") {
        last_path_component(target.cwd.as_str())
    } else {
        snapshot.auto_label.clone()
    };
    WorkspaceGitStatus {
        workspace_id: target.workspace_id.clone(),
        cwd: target.cwd.clone(),
        cache_key: cache_key.clone(),
        auto_label,
        branch: clone_opt_text(&snapshot.branch),
        ahead_behind: snapshot.ahead_behind,
        space: copy_space(&snapshot.space),
        demand,
    }
}

/// What a finished refresh publishes: for each target of each job what the job found, and what
/// the jobs leave for the cache.
pub open spec fn is_output(
    output: RefreshOutput,
    jobs: Seq<RefreshJob>,
    outcomes: Seq<JobOutcome>,
    demand: RefreshDemand,
) -> bool {
    &&& output.results@.len() == results_before(jobs, jobs.len() as int)
    &&& results_tell(output.results@, jobs, outcomes, demand, jobs.len() as int)
    &&& row_views(output.cache_updates@) == entries_left(jobs, outcomes, jobs.len() as int)
}

proof fn lemma_results_before_grows(jobs: Seq<RefreshJob>, a: int, b: int)
    requires
        0 <= a <= b <= jobs.len(),
    ensures
        results_before(jobs, a) <= results_before(jobs, b),
    decreases b - a,
{
    if a < b {
        lemma_results_before_grows(jobs, a, b - 1);
    }
}

/// Publish the outcomes of the jobs.
pub fn publish_refresh(jobs: &Vec<RefreshJob>, outcomes: &Vec<JobOutcome>, demand: RefreshDemand) -> (r:
    RefreshOutput)
    requires
        outcomes_fit(jobs@, outcomes@),
    ensures
        is_output(r, jobs@, outcomes@, demand),
{
    let mut results: Vec<WorkspaceGitStatus> = Vec::new();
    let mut cache_updates: Vec<CacheRow> = Vec::new();
    let mut n: usize = 0;
    proof {
        assert(row_views(cache_updates@) =~= entries_left(jobs@, outcomes@, 0));
    }
    while n < jobs.len()
        invariant
            outcomes_fit(jobs@, outcomes@),
            n <= jobs@.len(),
            results@.len() == results_before(jobs@, n as int),
            results_tell(results@, jobs@, outcomes@, demand, n as int),
            row_views(cache_updates@) == entries_left(jobs@, outcomes@, n as int),
        decreases jobs@.len() - n,
    {
        let job = &jobs[n];
        let outcome = &outcomes[n];
        let ghost entry_now = outcome_entry(*job, *outcome);
        proof {
            assert(outcomes@[n as int] is Cached ==> jobs@[n as int].cached is Some);
        }
        let (snapshot, entry): (StatusSnapshot, Option<CacheEntry>) = match outcome {
            JobOutcome::Cached => match &job.cached {
                Some(cached) => (copy_snapshot(&cached.snapshot), Some(copy_entry(cached))),
                None => {
                    proof {
                        assert(false);
                    }
                    (
                        StatusSnapshot {
                            auto_label: String::new(),
                            branch: None,
                            ahead_behind: None,
                            space: None,
                        },
                        None,
                    )
                },
            },
            JobOutcome::Probed { snapshot, entry } => (
                copy_snapshot(snapshot),
                match entry {
                    Some(e) => Some(copy_entry(e)),
                    None => None,
                },
            ),
        };
        let ghost rows_before = cache_updates@;
        match entry {
            Some(entry) => {
                let row = CacheRow { key: job.cache_key.clone(), entry };
                cache_updates.push(row);
                proof {
                    assert(row_views(cache_updates@) =~= row_views(rows_before).push(
                        (row.key@, row.entry),
                    ));
                }
            },
            None => {},
        }
        let ghost base = results@.len() as int;
        let mut t: usize = 0;
        while t < job.targets.len()
            invariant
                n < jobs@.len(),
                outcomes@.len() == jobs@.len(),
                *job == jobs@[n as int],
                t <= job.targets@.len(),
                base == results_before(jobs@, n as int),
                0 <= base,
                results@.len() == base + t,
                results_tell(results@, jobs@, outcomes@, demand, n as int),
                snapshot == outcome_snapshot(jobs@[n as int], outcomes@[n as int]),
                forall|k: int|
                    0 <= k < t ==> snapshot.tells(
                        #[trigger] results@[base + k],
                        jobs@[n as int].targets@[k]@,
                        jobs@[n as int].cache_key@,
                        demand,
                    ),
            decreases job.targets@.len() - t,
        {
            let status = workspace_status(&snapshot, &job.targets[t], &job.cache_key, demand);
            let ghost shorter = results@;
            results.push(status);
            proof {
                assert forall|j: int, k: int|
                    0 <= j < n && 0 <= k < jobs@[j].targets@.len() implies #[trigger] is_told(
                    results@,
                    jobs@,
                    outcomes@,
                    demand,
                    j,
                    k,
                ) by {
                    assert(is_told(shorter, jobs@, outcomes@, demand, j, k));
                }
                assert forall|k: int| 0 <= k < t + 1 implies snapshot.tells(
                    #[trigger] results@[base + k],
                    jobs@[n as int].targets@[k]@,
                    jobs@[n as int].cache_key@,
                    demand,
                ) by {
                    if k < t {
                        assert(results@[base + k] == shorter[base + k]);
                    }
                }
            }
            t = t + 1;
        }
        proof {
            assert forall|j: int, k: int|
                0 <= j < n + 1 && 0 <= k < jobs@[j].targets@.len() implies #[trigger] is_told(
                results@,
                jobs@,
                outcomes@,
                demand,
                j,
                k,
            ) by {
                if j == n {
                    lemma_results_before_grows(jobs@, 0, n as int);
                    assert(snapshot.tells(
                        results@[base + k],
                        jobs@[n as int].targets@[k]@,
                        jobs@[n as int].cache_key@,
                        demand,
                    ));
                }
            }
        }
        n = n + 1;
    }
    RefreshOutput { results, cache_updates }
}

/// `output` is what a refresh of `items` publishes, for the jobs that they make.
pub open spec fn is_refresh_output(
    output: RefreshOutput,
    items: Seq<RefreshItem>,
    cache: Seq<CacheRow>,
    outcomes: Seq<JobOutcome>,
    demand: RefreshDemand,
) -> bool {
    exists|jobs: Seq<RefreshJob>| #[trigger]
        is_job_list(jobs, items, cache) && is_output(output, jobs, outcomes, demand)
}

/// A whole refresh, given the outcomes of the jobs that the items make.
pub fn refresh_workspace_git_statuses_with_cache_and_demand(
    items: Vec<RefreshItem>,
    cache: &Vec<CacheRow>,
    demand: RefreshDemand,
    outcomes: &Vec<JobOutcome>,
) -> (r: RefreshOutput)
    requires
        outcomes_possible(items@, cache@, outcomes@),
    ensures
        is_refresh_output(r, items@, cache@, outcomes@, demand),
{
    let jobs = deduplicate_git_refresh_items(items, cache);
    publish_refresh(&jobs, outcomes, demand)
}

/// A miss that is remembered is not to be tried again yet.
pub open spec fn cache_stands(job: RefreshJob, now: u64) -> bool {
    job.cached matches Some(entry) && entry.fingerprint is None && (
    entry.retry_after matches Some(t) && now < t)
}

/// Whether a job's cached result stands without a probe: there was nothing to find, and it is too
/// early to look again.
pub fn cached_result_stands(job: &RefreshJob, now: u64) -> (r: bool)
    ensures
        r == cache_stands(*job, now),
{
    match &job.cached {
        Some(entry) => entry.fingerprint.is_none() && match entry.retry_after {
            Some(t) => now < t,
            None => false,
        },
        None => false,
    }
}

impl GitRefresh {
    /// A refresh can be started when none is running, there is something to refresh, and somebody
    /// wants to know.
    pub open spec fn spec_deadline(
        &self,
        has_workspaces: bool,
        demand: RefreshDemand,
        interval: u64,
    ) -> Option<int> {
        if !self.in_flight && has_workspaces && (self.identity_requested || demand.branch
            || demand.ahead_behind) {
            Some(self.last_remote_status + interval)
        } else {
            None
        }
    }

    pub fn git_refresh_deadline(&self, has_workspaces: bool, demand: RefreshDemand, interval: u64) -> (r:
        Option<u64>)
        requires
            self.last_remote_status + interval <= u64::MAX,
        ensures
            match r {
                Some(t) => self.spec_deadline(has_workspaces, demand, interval) == Some(t as int),
                None => self.spec_deadline(has_workspaces, demand, interval) is None,
            },
    {
        if !self.in_flight && has_workspaces && (self.identity_requested || demand.branch
            || demand.ahead_behind) {
            Some(self.last_remote_status + interval)
        } else {
            None
        }
    }

    /// Ask for the next refresh to be due now. Results that found no repository are forgotten.
    pub open spec fn marked_due(&self, new: GitRefresh, now: u64, interval: u64) -> bool {
        &&& new.cache@ == self.cache@.filter(|r: CacheRow| r.entry.fingerprint is Some)
        &&& new.in_flight == self.in_flight
        &&& new.identity_requested == self.identity_requested
        &&& new.last_repo_discovery == self.last_repo_discovery
        &&& if self.in_flight {
            new.due_after_in_flight && new.last_remote_status == self.last_remote_status
        } else {
            !new.due_after_in_flight && new.last_remote_status == if now >= interval {
                (now - interval) as u64
            } else {
                now
            }
        }
    }

    #[verifier::loop_isolation(false)]
    fn forget_misses(&mut self)
        ensures
            final(self).cache@ == old(self).cache@.filter(
                |r: CacheRow| r.entry.fingerprint is Some,
            ),
            final(self).in_flight == old(self).in_flight,
            final(self).due_after_in_flight == old(self).due_after_in_flight,
            final(self).identity_requested == old(self).identity_requested,
            final(self).last_remote_status == old(self).last_remote_status,
            final(self).last_repo_discovery == old(self).last_repo_discovery,
    {
        let ghost p = |r: CacheRow| r.entry.fingerprint is Some;
        let mut keep: Vec<bool> = Vec::new();
        let mut i: usize = 0;
        while i < self.cache.len()
            invariant
                i <= self.cache@.len(),
                keep@.len() == i,
                forall|j: int|
                    0 <= j < i ==> #[trigger] keep@[j] == (self.cache@[j].entry.fingerprint is Some),
            decreases self.cache@.len() - i,
        {
            keep.push(self.cache[i].entry.fingerprint.is_some());
            i = i + 1;
        }
        retain_marked(&mut self.cache, &keep, Ghost(p));
    }

    pub fn mark_git_status_refresh_due(&mut self, now: u64, interval: u64)
        ensures
            old(self).marked_due(*final(self), now, interval),
    {
        self.forget_misses();
        if self.in_flight {
            self.due_after_in_flight = true;
            return;
        }
        self.last_remote_status = if now >= interval {
            now - interval
        } else {
            now
        };
        self.due_after_in_flight = false;
    }

    /// Ask for every repository to be looked for again.
    pub fn request_git_identity_refresh(&mut self, now: u64, interval: u64)
        ensures
            (GitRefresh { identity_requested: true, ..*old(self) }).marked_due(
                *final(self),
                now,
                interval,
            ),
    {
        self.identity_requested = true;
        self.mark_git_status_refresh_due(now, interval);
    }

    /// `new` is `self` after a running refresh ended: the next is an interval away, but one that was
    /// asked for meanwhile is due now.
    pub open spec fn ended(&self, new: GitRefresh, now: u64, interval: u64) -> bool {
        let idle = GitRefresh { in_flight: false, last_remote_status: now, ..*self };
        if self.due_after_in_flight {
            idle.marked_due(new, now, interval)
        } else {
            new == idle
        }
    }

    /// A running refresh ended.
    pub fn git_refresh_finished(&mut self, now: u64, interval: u64)
        ensures
            old(self).ended(*final(self), now, interval),
    {
        self.in_flight = false;
        self.last_remote_status = now;
        if self.due_after_in_flight {
            self.mark_git_status_refresh_due(now, interval);
        }
    }

    /// Whether repositories are looked for again in a refresh that starts now.
    pub open spec fn rediscovers(&self, now: u64, intervals: RefreshIntervals) -> bool {
        self.identity_requested || (if now >= self.last_repo_discovery {
            now - self.last_repo_discovery
        } else {
            0
        }) >= intervals.repo_discovery
    }

    /// `new` is `self` after a refresh was started where one is due, `work` being what there is to
    /// do.
    pub open spec fn started(
        &self,
        new: GitRefresh,
        now: u64,
        workspaces: Seq<GitWorkspace>,
        demand: RefreshDemand,
        intervals: RefreshIntervals,
        work: Option<RefreshWork>,
    ) -> bool {
        let deadline = self.spec_deadline(workspaces.len() > 0, demand, intervals.remote_status);
        let due = deadline matches Some(t) && now >= t;
        let discovery = self.rediscovers(now, intervals);
        if !due {
            work is None && new == *self
        } else if placed(workspaces).len() == 0 {
            work is None && new == (GitRefresh {
                last_remote_status: now,
                identity_requested: false,
                ..*self
            })
        } else {
            &&& work matches Some(w) && are_items_of(w.items@, workspaces, discovery) && w.demand
                == (RefreshDemand {
                branch: demand.branch || self.identity_requested,
                ahead_behind: demand.ahead_behind,
            })
            &&& new == (GitRefresh {
                in_flight: true,
                identity_requested: false,
                last_repo_discovery: if discovery {
                    now
                } else {
                    self.last_repo_discovery
                },
                ..*self
            })
        }
    }

    /// Start a refresh where one is due: the work to do, if there is any.
    pub fn start_git_status_refresh_if_due(
        &mut self,
        now: u64,
        workspaces: &Vec<GitWorkspace>,
        demand: RefreshDemand,
        intervals: RefreshIntervals,
    ) -> (r: Option<RefreshWork>)
        requires
            old(self).last_remote_status + intervals.remote_status <= u64::MAX,
        ensures
            old(self).started(*final(self), now, workspaces@, demand, intervals, r),
    {
        match self.git_refresh_deadline(workspaces.len() > 0, demand, intervals.remote_status) {
            Some(deadline) => {
                if now < deadline {
                    return None;
                }
            },
            None => {
                return None;
            },
        }
        let since: u64 = if now >= self.last_repo_discovery {
            now - self.last_repo_discovery
        } else {
            0
        };
        let discovery = self.identity_requested || since >= intervals.repo_discovery;
        let items = workspace_git_refresh_items(workspaces, discovery);
        if items.len() == 0 {
            self.last_remote_status = now;
            self.identity_requested = false;
            return None;
        }
        self.in_flight = true;
        let mut wanted = demand;
        if self.identity_requested {
            wanted.branch = true;
        }
        self.identity_requested = false;
        if discovery {
            self.last_repo_discovery = now;
        }
        Some(RefreshWork { items, demand: wanted })
    }
}

/// No workspace is lost in the grouping: each item's key has a job, and the job has the item for a
/// target.
pub proof fn law_every_item_has_a_target(items: Seq<RefreshItem>, i: int)
    requires
        0 <= i < items.len(),
    ensures
        distinct_keys(items).contains(items[i].key()),
        targets_of(items, items[i].key()).contains(items[i].target()),
    decreases items.len(),
{
    lemma_distinct_keys(items);
    assert(distinct_keys(items).contains(items[i].key()));
    let key = items[i].key();
    let all = targets_of(items, key);
    if i == items.len() - 1 {
        assert(all[all.len() - 1] == items[i].target());
    } else {
        let head = items.drop_last();
        assert(head[i] == items[i]);
        law_every_item_has_a_target(head, i);
        let before = targets_of(head, key);
        let k = choose|k: int| 0 <= k < before.len() && before[k] == items[i].target();
        assert(all[k] == before[k]);
    }
}

proof fn lemma_one_more(
    keys: Seq<PathView>,
    f: spec_fn(PathView) -> nat,
    g: spec_fn(PathView) -> nat,
    key: PathView,
)
    requires
        forall|i: int, j: int| 0 <= i < j < keys.len() ==> keys[i] != keys[j],
        forall|k: PathView| #[trigger] g(k) == f(k) + (if k == key {
            1nat
        } else {
            0
        }),
    ensures
        sum_of(keys, g) == sum_of(keys, f) + (if keys.contains(key) {
            1nat
        } else {
            0
        }),
    decreases keys.len(),
{
    if keys.len() > 0 {
        let head = keys.drop_last();
        lemma_one_more(head, f, g, key);
        assert(g(keys.last()) == f(keys.last()) + (if keys.last() == key {
            1nat
        } else {
            0
        }));
        if keys.last() == key {
            assert(keys[keys.len() - 1] == key);
            if head.contains(key) {
                let i = choose|i: int| 0 <= i < head.len() && head[i] == key;
                assert(keys[i] == keys[keys.len() - 1]);
            }
        } else if head.contains(key) {
            let i = choose|i: int| 0 <= i < head.len() && head[i] == key;
            assert(keys[i] == key);
        } else if keys.contains(key) {
            let i = choose|i: int| 0 <= i < keys.len() && keys[i] == key;
            assert(head[i] == key);
        }
    }
}

/// No workspace is told twice: over all keys there are as many targets as there are items.
pub proof fn law_as_many_targets_as_items(items: Seq<RefreshItem>)
    ensures
        sum_of(distinct_keys(items), |k: PathView| targets_of(items, k).len()) == items.len(),
    decreases items.len(),
{
    if items.len() > 0 {
        let head = items.drop_last();
        let key = items.last().key();
        let keys = distinct_keys(head);
        let f = |k: PathView| targets_of(head, k).len();
        let g = |k: PathView| targets_of(items, k).len();
        law_as_many_targets_as_items(head);
        lemma_distinct_keys(head);
        lemma_one_more(keys, f, g, key);
        if !keys.contains(key) {
            assert forall|i: int| 0 <= i < head.len() implies (#[trigger] head[i]).key()
                != key by {
                assert(keys.contains(head[i].key()));
            }
            lemma_no_item_no_target(head, key);
            assert(keys.push(key).drop_last() =~= keys);
            assert(g(key) == 1);
        }
    }
}

/// No two jobs share a key, however it is written.
pub proof fn law_jobs_have_distinct_keys(
    jobs: Seq<RefreshJob>,
    items: Seq<RefreshItem>,
    cache: Seq<CacheRow>,
    a: int,
    b: int,
)
    requires
        is_job_list(jobs, items, cache),
        0 <= a < b < jobs.len(),
    ensures
        path_of(jobs[a].cache_key@) != path_of(jobs[b].cache_key@),
{
    lemma_distinct_keys(items);
}

/// A refresh asked for while another runs is due as soon as that one has ended; the next that
/// nobody asked for is an interval away.
pub proof fn law_a_refresh_asked_for_is_never_lost(
    before: GitRefresh,
    marked: GitRefresh,
    ended: GitRefresh,
    now: u64,
    later: u64,
    interval: u64,
    demand: RefreshDemand,
)
    requires
        before.in_flight,
        demand.branch || demand.ahead_behind,
        later >= interval,
    ensures
        before.marked_due(marked, now, interval) && marked.ended(ended, later, interval)
            ==> ended.spec_deadline(true, demand, interval) == Some(later as int),
        !before.due_after_in_flight && before.ended(ended, later, interval) ==> ended.spec_deadline(
            true,
            demand,
            interval,
        ) == Some(later + interval),
{
}

} // verus!
