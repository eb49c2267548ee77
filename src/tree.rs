//! The tree: which projects a tree-wide operation touches, what each
//! per-project job does, and how the jobs' outcomes reduce to one exit code.

use vstd::prelude::*;

use crate::config::RemoteConfig;

verus! {

/// A group filter: keep projects tagged with a group, or drop them.
#[derive(Clone, Debug, PartialEq, Eq)]
pub enum GroupFilter {
    Include(String),
    Exclude(String),
}

/// Whether a sync fetches, and whether it skips the manifest project
/// (already fetched while the tree was constructed).
#[derive(Clone, Copy, Debug, PartialEq, Eq)]
pub enum FetchType {
    NoFetch,
    Fetch,
    FetchExceptManifest,
}

/// Whether a sync updates working files after fetching.
#[derive(Clone, Copy, Debug, PartialEq, Eq)]
pub enum CheckoutType {
    Checkout,
    NoCheckout,
}

/// What a sync job does to a project's checkout once its fetch is done.
#[derive(Clone, Copy, Debug, PartialEq, Eq)]
pub enum SyncAction {
    /// Create the checkout (a new project).
    Clone,
    /// Refresh the tracking refs, then the working files.
    RefreshRefsAndFiles,
    /// Refresh the tracking refs only.
    RefreshRefs,
    /// Leave the project alone.
    Nothing,
}

/// One project of a tree.
#[derive(Clone, Debug)]
pub struct Project {
    /// Checkout path, relative to the tree root.
    pub path: String,
    pub remote: RemoteConfig,
    pub branch: String,
    pub groups: Vec<String>,
}

/// One unit of work of a sync.
#[derive(Clone, Copy, Debug)]
pub struct SyncJob {
    /// Index of the project in the tree.
    pub project: usize,
    /// Whether the job fetches before touching the checkout.
    pub fetch: bool,
}

/// An on-disk tree: its root, the remote and branch of its manifest, the
/// group filters it was created with, and its projects in manifest order.
#[derive(Clone, Debug)]
pub struct Tree {
    pub root: String,
    pub remote: String,
    pub branch: String,
    pub manifest_project: String,
    pub group_filters: Vec<GroupFilter>,
    pub projects: Vec<Project>,
}

pub open spec fn has_group(groups: Seq<String>, g: Seq<char>) -> bool {
    exists|j: int| 0 <= j < groups.len() && groups[j]@ == g
}

pub open spec fn excluded_by(groups: Seq<String>, filters: Seq<GroupFilter>) -> bool {
    exists|i: int|
        0 <= i < filters.len() && (#[trigger] filters[i] matches GroupFilter::Exclude(g) && has_group(
            groups,
            g@,
        ))
}

pub open spec fn has_include(filters: Seq<GroupFilter>) -> bool {
    exists|i: int| 0 <= i < filters.len() && filters[i] is Include
}

pub open spec fn included_by(groups: Seq<String>, filters: Seq<GroupFilter>) -> bool {
    exists|i: int|
        0 <= i < filters.len() && (#[trigger] filters[i] matches GroupFilter::Include(g) && has_group(
            groups,
            g@,
        ))
}

/// A project is eligible iff no exclude filter matches one of its groups,
/// and either there is no include filter or one of them matches.
pub open spec fn eligible_spec(groups: Seq<String>, filters: Seq<GroupFilter>) -> bool {
    !excluded_by(groups, filters) && (!has_include(filters) || included_by(groups, filters))
}

/// With no filters every project is eligible.
pub proof fn lemma_no_filters_admit_all(groups: Seq<String>)
    ensures
        eligible_spec(groups, Seq::empty()),
{
}

fn contains_group(groups: &Vec<String>, g: &String) -> (r: bool)
    ensures
        r == has_group(groups@, g@),
{
    let mut j: usize = 0;
    while j < groups.len()
        invariant
            0 <= j <= groups@.len(),
            forall|k: int| 0 <= k < j ==> groups@[k]@ != g@,
        decreases groups@.len() - j,
    {
        if groups[j] == *g {
            return true;
        }
        j = j + 1;
    }
    false
}

/// Whether a project tagged with `groups` passes `filters`.
pub fn project_eligible(groups: &Vec<String>, filters: &Vec<GroupFilter>) -> (r: bool)
    ensures
        r == eligible_spec(groups@, filters@),
{
    let mut any_include = false;
    let mut include_hit = false;
    let mut i: usize = 0;
    while i < filters.len()
        invariant
            0 <= i <= filters@.len(),
            any_include == exists|k: int| 0 <= k < i && filters@[k] is Include,
            include_hit == exists|k: int|
                0 <= k < i && (#[trigger] filters@[k] matches GroupFilter::Include(g) && has_group(
                    groups@,
                    g@,
                )),
            forall|k: int|
                0 <= k < i ==> !(#[trigger] filters@[k] matches GroupFilter::Exclude(g) && has_group(
                    groups@,
                    g@,
                )),
        decreases filters@.len() - i,
    {
        match &filters[i] {
            GroupFilter::Include(g) => {
                any_include = true;
                if contains_group(groups, g) {
                    include_hit = true;
                }
            },
            GroupFilter::Exclude(g) => {
                if contains_group(groups, g) {
                    assert(excluded_by(groups@, filters@));
                    return false;
                }
            },
        }
        i = i + 1;
    }
    !any_include || include_hit
}

/// `path` is `arg` or lies beneath it.
pub open spec fn under_spec(path: Seq<char>, arg: Seq<char>) -> bool {
    path == arg || (path.len() > arg.len() && arg.is_prefix_of(path) && (path[arg.len() as int]
        == '/' || (arg.len() > 0 && arg.last() == '/')))
}

/// A path is in scope when there is no scope, or when it is at or beneath
/// one of the scope's entries.
pub open spec fn in_scope_spec(path: Seq<char>, scope: Option<Seq<String>>) -> bool {
    match scope {
        None => true,
        Some(args) => exists|i: int| 0 <= i < args.len() && #[trigger] under_spec(path, args[i]@),
    }
}

pub open spec fn scope_view(scope: Option<&Vec<String>>) -> Option<Seq<String>> {
    match scope {
        Some(v) => Some(v@),
        None => None,
    }
}

/// Whether `path` is `arg` or lies beneath it.
pub fn path_under(path: &str, arg: &str) -> (r: bool)
    ensures
        r == under_spec(path@, arg@),
{
    let p = crate::text::chars_of(path);
    let a = crate::text::chars_of(arg);
    if p.len() < a.len() {
        return false;
    }
    let mut i: usize = 0;
    while i < a.len()
        invariant
            0 <= i <= a@.len(),
            a@.len() <= p@.len(),
            p@ == path@,
            a@ == arg@,
            forall|k: int| 0 <= k < i ==> p@[k] == a@[k],
        decreases a@.len() - i,
    {
        if p[i] != a[i] {
            assert(p@.subrange(0, a@.len() as int)[i as int] != a@[i as int]);
            assert(!a@.is_prefix_of(p@));
            assert(p@ != a@) by {
                if p@ == a@ {
                    assert(p@[i as int] == a@[i as int]);
                }
            }
            return false;
        }
        i = i + 1;
    }
    assert(p@.subrange(0, a@.len() as int) =~= a@);
    if p.len() == a.len() {
        assert(p@ =~= a@);
        true
    } else {
        p[a.len()] == '/' || (a.len() > 0 && a[a.len() - 1] == '/')
    }
}

fn under_any(path: &str, args: &Vec<String>) -> (r: bool)
    ensures
        r == in_scope_spec(path@, Some(args@)),
{
    let mut i: usize = 0;
    while i < args.len()
        invariant
            0 <= i <= args@.len(),
            forall|k: int| 0 <= k < i ==> !under_spec(path@, args@[k]@),
        decreases args@.len() - i,
    {
        if path_under(path, args[i].as_str()) {
            assert(under_spec(path@, args@[i as int]@));
            assert(exists|k: int| 0 <= k < args@.len() && under_spec(path@, args@[k]@));
            let ghost sc: Option<Seq<String>> = Some(args@);
            assert(sc->0 == args@);
            assert(in_scope_spec(path@, sc));
            return true;
        }
        i = i + 1;
    }
    assert(!in_scope_spec(path@, Some(args@))) by {
        if in_scope_spec(path@, Some(args@)) {
            let k = choose|k: int| 0 <= k < args@.len() && under_spec(path@, args@[k]@);
            assert(!under_spec(path@, args@[k]@));
        }
    }
    false
}

/// Whether `path` is within `scope` (every path is, where there is none).
pub fn path_in_scope(path: &str, scope: Option<&Vec<String>>) -> (r: bool)
    ensures
        r == in_scope_spec(path@, scope_view(scope)),
{
    match scope {
        None => {
            true
        },
        Some(args) => {
            let found = under_any(path, args);
            assert(scope_view(scope) == Some(args@));
            found
        },
    }
}

/// Whether project `p` takes part in an operation under `filters` and `scope`.
pub open spec fn selected_spec(p: Project, filters: Seq<GroupFilter>, scope: Option<Seq<String>>) -> bool {
    eligible_spec(p.groups@, filters) && in_scope_spec(p.path@, scope)
}

/// The indices, in order, of the first `n` projects that are selected.
pub open spec fn selection_spec(
    projects: Seq<Project>,
    filters: Seq<GroupFilter>,
    scope: Option<Seq<String>>,
    n: int,
) -> Seq<int>
    decreases n,
{
    if n <= 0 {
        Seq::empty()
    } else if selected_spec(projects[n - 1], filters, scope) {
        selection_spec(projects, filters, scope, n - 1).push(n - 1)
    } else {
        selection_spec(projects, filters, scope, n - 1)
    }
}

pub open spec fn indices_view(v: Seq<usize>) -> Seq<int> {
    v.map_values(|x: usize| x as int)
}

/// The indices, in manifest order, of the projects that pass `filters` and
/// lie within `scope`.
pub fn select_projects(
    projects: &Vec<Project>,
    filters: &Vec<GroupFilter>,
    scope: Option<&Vec<String>>,
) -> (r: Vec<usize>)
    ensures
        indices_view(r@) == selection_spec(projects@, filters@, scope_view(scope), projects@.len() as int),
{
    let mut r: Vec<usize> = Vec::new();
    let mut i: usize = 0;
    while i < projects.len()
        invariant
            0 <= i <= projects@.len(),
            indices_view(r@) == selection_spec(projects@, filters@, scope_view(scope), i as int),
        decreases projects@.len() - i,
    {
        let p = &projects[i];
        let keep = project_eligible(&p.groups, filters) && path_in_scope(p.path.as_str(), scope);
        let ghost before = r@;
        if keep {
            r.push(i);
            assert(indices_view(r@) =~= indices_view(before).push(i as int));
        }
        i = i + 1;
    }
    r
}

/// Whether a sync job fetches the project.
pub open spec fn job_fetches_spec(fetch: FetchType, is_manifest: bool) -> bool {
    match fetch {
        FetchType::NoFetch => false,
        FetchType::Fetch => true,
        FetchType::FetchExceptManifest => !is_manifest,
    }
}

/// Whether a sync job fetches, given the fetch mode and whether the project
/// is the manifest project.
pub fn job_fetches(fetch: FetchType, is_manifest: bool) -> (r: bool)
    ensures
        r == job_fetches_spec(fetch, is_manifest),
{
    match fetch {
        FetchType::NoFetch => false,
        FetchType::Fetch => true,
        FetchType::FetchExceptManifest => !is_manifest,
    }
}

/// What a sync job does to a checkout after its fetch: with checkout, a new
/// project is cloned and an existing one refreshed (refs, then files);
/// without, an existing project's tracking refs are refreshed and a new one
/// is left alone.
pub fn sync_action(checkout: CheckoutType, exists: bool) -> (r: SyncAction)
    ensures
        r == match checkout {
            CheckoutType::Checkout => if exists {
                SyncAction::RefreshRefsAndFiles
            } else {
                SyncAction::Clone
            },
            CheckoutType::NoCheckout => if exists {
                SyncAction::RefreshRefs
            } else {
                SyncAction::Nothing
            },
        },
{
    match checkout {
        CheckoutType::Checkout => if exists {
            SyncAction::RefreshRefsAndFiles
        } else {
            SyncAction::Clone
        },
        CheckoutType::NoCheckout => if exists {
            SyncAction::RefreshRefs
        } else {
            SyncAction::Nothing
        },
    }
}

/// The exit code of a fan-out: zero when every job succeeded, one otherwise.
pub open spec fn aggregate_spec(codes: Seq<i32>) -> i32 {
    if forall|i: int| 0 <= i < codes.len() ==> codes[i] == 0 {
        0
    } else {
        1
    }
}

/// Reduces the jobs' exit codes to one: zero when every job succeeded, one
/// otherwise.
pub fn aggregate_exit_code(codes: &Vec<i32>) -> (r: i32)
    ensures
        r == aggregate_spec(codes@),
{
    let mut i: usize = 0;
    while i < codes.len()
        invariant
            0 <= i <= codes@.len(),
            forall|k: int| 0 <= k < i ==> codes@[k] == 0,
        decreases codes@.len() - i,
    {
        if codes[i] != 0 {
            return 1;
        }
        i = i + 1;
    }
    0
}

/// One failed job makes a fan-out's exit code nonzero, and with that job's
/// failure set aside the code is zero exactly when every other job
/// succeeded: the other jobs' outcomes are counted on their own.
pub proof fn lemma_fan_out_isolation(codes: Seq<i32>, failed: int)
    requires
        0 <= failed < codes.len(),
        codes[failed] != 0,
    ensures
        aggregate_spec(codes) == 1,
        aggregate_spec(codes.update(failed, 0)) == 0 <==> forall|i: int|
            0 <= i < codes.len() && i != failed ==> codes[i] == 0,
{
    assert forall|i: int| 0 <= i < codes.len() && i != failed implies codes.update(failed, 0)[i]
        == codes[i] by {}
    if forall|i: int| 0 <= i < codes.len() && i != failed ==> codes[i] == 0 {
        assert forall|i: int| 0 <= i < codes.len() implies codes.update(failed, 0)[i] == 0 by {
            if i != failed {
                assert(codes.update(failed, 0)[i] == codes[i]);
            }
        }
    }
}

/// Job `job` is the sync job of project `idx`.
pub open spec fn job_spec(
    job: SyncJob,
    idx: int,
    projects: Seq<Project>,
    manifest: Seq<char>,
    fetch: FetchType,
) -> bool {
    &&& job.project as int == idx
    &&& job.fetch == job_fetches_spec(fetch, projects[idx].path@ == manifest)
}

impl Tree {
    /// The jobs of a sync, one per project selected by the tree's group
    /// filters and `scope`, in manifest order. Whether each job fetches
    /// depends on `fetch` and on whether the project is the manifest project.
    pub fn sync_jobs(&self, scope: Option<&Vec<String>>, fetch: FetchType) -> (r: Vec<SyncJob>)
        ensures
            r@.len() == selection_spec(
                self.projects@,
                self.group_filters@,
                scope_view(scope),
                self.projects@.len() as int,
            ).len(),
            forall|k: int|
                0 <= k < r@.len() ==> job_spec(
                    #[trigger] r@[k],
                    selection_spec(
                        self.projects@,
                        self.group_filters@,
                        scope_view(scope),
                        self.projects@.len() as int,
                    )[k],
                    self.projects@,
                    self.manifest_project@,
                    fetch,
                ),
    {
        let selected = select_projects(&self.projects, &self.group_filters, scope);
        let ghost sel = selection_spec(
            self.projects@,
            self.group_filters@,
            scope_view(scope),
            self.projects@.len() as int,
        );
        proof {
            lemma_selection_bounds(self.projects@, self.group_filters@, scope_view(scope), self.projects@.len() as int);
        }
        let mut jobs: Vec<SyncJob> = Vec::new();
        let mut k: usize = 0;
        while k < selected.len()
            invariant
                0 <= k <= selected@.len(),
                indices_view(selected@) == sel,
                forall|j: int| 0 <= j < sel.len() ==> 0 <= #[trigger] sel[j] < self.projects@.len(),
                jobs@.len() == k,
                forall|j: int|
                    0 <= j < k ==> job_spec(
                        #[trigger] jobs@[j],
                        sel[j],
                        self.projects@,
                        self.manifest_project@,
                        fetch,
                    ),
            decreases selected@.len() - k,
        {
            let idx = selected[k];
            assert(sel[k as int] == idx as int);
            let is_manifest = self.projects[idx].path == self.manifest_project;
            jobs.push(SyncJob { project: idx, fetch: job_fetches(fetch, is_manifest) });
            k = k + 1;
        }
        jobs
    }

    /// The project that contains `dir` (a path relative to the tree root):
    /// among the projects at or above `dir`, the one with the longest path,
    /// the first of them on a tie.
    pub fn project_at(&self, dir: &str) -> (r: Option<usize>)
        ensures
            r is None <==> forall|j: int|
                0 <= j < self.projects@.len() ==> !under_spec(dir@, self.projects@[j].path@),
            r matches Some(i) ==> {
                &&& 0 <= i < self.projects@.len()
                &&& under_spec(dir@, self.projects@[i as int].path@)
                &&& forall|j: int|
                    0 <= j < self.projects@.len() && under_spec(dir@, self.projects@[j].path@)
                        ==> self.projects@[j].path@.len() <= self.projects@[i as int].path@.len()
            },
    {
        let mut best: Option<usize> = None;
        let mut best_len: usize = 0;
        let mut j: usize = 0;
        while j < self.projects.len()
            invariant
                0 <= j <= self.projects@.len(),
                best is None <==> forall|k: int|
                    0 <= k < j ==> !under_spec(dir@, self.projects@[k].path@),
                best matches Some(i) ==> {
                    &&& 0 <= i < j
                    &&& under_spec(dir@, self.projects@[i as int].path@)
                    &&& best_len as int == self.projects@[i as int].path@.len()
                    &&& forall|k: int|
                        0 <= k < j && under_spec(dir@, self.projects@[k].path@)
                            ==> self.projects@[k].path@.len() <= best_len
                },
            decreases self.projects@.len() - j,
        {
            let p = &self.projects[j];
            if path_under(dir, p.path.as_str()) {
                let len = crate::text::chars_of(p.path.as_str()).len();
                if best.is_none() || len > best_len {
                    best = Some(j);
                    best_len = len;
                }
            }
            j = j + 1;
        }
        best
    }

    /// The environment of a `forall` command run in project `project`: the
    /// tree root and the project's path relative to it.
    pub fn forall_env(&self, project: &Project) -> (r: Vec<(String, String)>)
        ensures
            r@.len() == 2,
            r@[0].0@ == "PORE_ROOT"@,
            r@[0].1@ == self.root@,
            r@[1].0@ == "PORE_ROOT_REL"@,
            r@[1].1@ == project.path@,
    {
        let mut env: Vec<(String, String)> = Vec::new();
        env.push(("PORE_ROOT".to_owned(), self.root.clone()));
        env.push(("PORE_ROOT_REL".to_owned(), project.path.clone()));
        env
    }
}

proof fn lemma_selection_bounds(
    projects: Seq<Project>,
    filters: Seq<GroupFilter>,
    scope: Option<Seq<String>>,
    n: int,
)
    requires
        n <= projects.len(),
    ensures
        forall|j: int|
            0 <= j < selection_spec(projects, filters, scope, n).len() ==> 0 <= #[trigger] selection_spec(
                projects,
                filters,
                scope,
                n,
            )[j] < n,
    decreases n,
{
    if n > 0 {
        lemma_selection_bounds(projects, filters, scope, n - 1);
        let prev = selection_spec(projects, filters, scope, n - 1);
        let cur = selection_spec(projects, filters, scope, n);
        assert forall|j: int| 0 <= j < cur.len() implies 0 <= #[trigger] cur[j] < n by {
            if j < prev.len() {
                assert(cur[j] == prev[j]);
            }
        }
    }
}

} // verus!
