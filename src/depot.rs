//! The depot: a per-host cache holding one bare object mirror per project
//! (`objects/<project>.git`) and one ref mirror per remote and project
//! (`refs/<remote>/<project>.git`).
//!
//! Every operation here is a plan: the paths, URLs and steps that an
//! executor carries out with the version-control engine and the file system.

use vstd::prelude::*;

use crate::config::{Config, ConfigError, DepotConfig, RemoteConfig};
use crate::text::{
    chars_of, ends_with_sep, join, join_spec, lemma_distinct_prefix, lemma_distinct_suffix,
    lemma_join_last, lemma_join_plain, starts_with_sep,
};

verus! {

/// A depot: its name and its root directory.
#[derive(Clone, Debug)]
pub struct Depot {
    pub name: String,
    pub path: String,
}

/// Why a depot operation was refused.
#[derive(Clone, Debug, PartialEq, Eq)]
pub enum DepotError {
    /// The project path starts or ends with a separator.
    InvalidProject(String),
    /// A directory replace was asked for with a source that does not exist.
    MissingSource(String),
}

/// How objects are brought into the object mirror.
#[derive(Clone, Debug, PartialEq, Eq)]
pub enum Transport {
    /// In-process fetch, tags not followed, nothing pruned.
    Native,
    /// The external binary, `--no-tags`, and `--depth N` where a depth is given.
    External { depth: Option<i32> },
}

/// Creation of a repository whose object store defers to another's.
#[derive(Clone, Debug)]
pub struct AlternatesPlan {
    /// Where the new repository is initialised.
    pub repo_path: String,
    pub bare: bool,
    /// The pointer file inside the new repository's object store.
    pub alternates_file: String,
    /// What the pointer file holds: the source object directory and a newline.
    pub contents: String,
}

/// A full directory replace: `dst` ends up holding exactly the direct entries of `src`.
#[derive(Clone, Debug)]
pub struct ReplacePlan {
    pub src: String,
    pub dst: String,
}

/// Everything a fetch of one project from one remote does.
#[derive(Clone, Debug)]
pub struct FetchPlan {
    pub objects_path: String,
    pub remote_name: String,
    pub repo_url: String,
    pub branch: String,
    pub transport: Transport,
    pub refs_path: String,
    /// Carried out only where no repository can be opened at `refs_path`.
    pub refs_mirror_init: AlternatesPlan,
    pub refs_update: ReplacePlan,
}

/// Everything a new working checkout of one project does.
#[derive(Clone, Debug)]
pub struct ClonePlan {
    pub init: AlternatesPlan,
    pub remote_name: String,
    /// Fetches come from the local ref mirror.
    pub fetch_url: String,
    /// Pushes go to the real remote.
    pub push_url: String,
    pub refs_update: ReplacePlan,
    /// Resolved against the new remote and checked out detached.
    pub branch: String,
}

pub open spec fn objects_mirror_spec(root: Seq<char>, project: Seq<char>) -> Seq<char> {
    join_spec(join_spec(root, "objects"@), project + ".git"@)
}

pub open spec fn refs_mirror_spec(root: Seq<char>, remote: Seq<char>, project: Seq<char>) -> Seq<
    char,
> {
    join_spec(join_spec(join_spec(root, "refs"@), remote), project + ".git"@)
}

/// The git directory of a repository at `path`: `path/.git` for a working
/// checkout, `path` itself for a bare repository.
pub open spec fn git_path_spec(path: Seq<char>, nonbare: bool) -> Seq<char> {
    if nonbare {
        join_spec(path, ".git"@)
    } else {
        path
    }
}

pub open spec fn alternates_file_spec(dst: Seq<char>, bare: bool) -> Seq<char> {
    join_spec(join_spec(join_spec(git_path_spec(dst, !bare), "objects"@), "info"@), "alternates"@)
}

pub open spec fn alternates_contents_spec(src: Seq<char>) -> Seq<char> {
    join_spec(src, "objects"@) + "\n"@
}

pub open spec fn alternates_plan_spec(p: AlternatesPlan, src: Seq<char>, dst: Seq<char>, bare: bool) -> bool {
    &&& p.repo_path@ == dst
    &&& p.bare == bare
    &&& p.alternates_file@ == alternates_file_spec(dst, bare)
    &&& p.contents@ == alternates_contents_spec(src)
}

pub open spec fn is_native_scheme(s: Seq<char>) -> bool {
    s == "git"@ || s == "https"@ || s == "http"@ || s == "ssh"@ || s == ""@
}

/// The transport for a URL whose scheme is `scheme` (`None`: the URL has no
/// scheme) and a requested depth.
pub open spec fn transport_spec(scheme: Option<Seq<char>>, depth: Option<i32>) -> Transport {
    let supported = match scheme {
        Some(s) => is_native_scheme(s),
        None => true,
    };
    if supported && depth is None {
        Transport::Native
    } else {
        Transport::External { depth }
    }
}

pub open spec fn valid_project(project: Seq<char>) -> bool {
    !starts_with_sep(project) && !ends_with_sep(project)
}

pub open spec fn opt_string_view(o: Option<String>) -> Option<Seq<char>> {
    match o {
        Some(s) => Some(s@),
        None => None,
    }
}

/// The scheme that `url::Url::parse` finds in a URL, `None` where the text
/// does not parse as an absolute URL.
pub uninterp spec fn url_scheme_of(url: Seq<char>) -> Option<Seq<char>>;

/// Relies on `url::Url::parse` and `url::Url::scheme`: the scheme of the
/// parsed URL, and `None` where parsing fails.
#[verifier::external_body]
fn url_scheme(url: &str) -> (r: Option<String>)
    ensures
        opt_string_view(r) == url_scheme_of(url@),
{
    match url::Url::parse(url) {
        Ok(u) => Some(u.scheme().to_string()),
        Err(_) => None,
    }
}

/// Chooses the transport for a URL scheme (`None`: the URL has none) and a
/// requested depth: native for the natively understood schemes when no depth
/// is asked for, the external binary otherwise.
pub fn select_transport(scheme: Option<&str>, depth: Option<i32>) -> (r: Transport)
    ensures
        r == transport_spec(
            match scheme {
                Some(s) => Some(s@),
                None => None,
            },
            depth,
        ),
{
    let supported = match scheme {
        Some(s) => {
            proof {
                reveal_strlit("git");
                reveal_strlit("https");
                reveal_strlit("http");
                reveal_strlit("ssh");
                reveal_strlit("");
            }
            let s = s.to_owned();
            s == "git".to_owned() || s == "https".to_owned() || s == "http".to_owned() || s
                == "ssh".to_owned() || s == "".to_owned()
        },
        None => true,
    };
    if supported && depth.is_none() {
        Transport::Native
    } else {
        Transport::External { depth }
    }
}

/// The remote-tracking refs of `remote` in the object mirror at `objects`.
pub open spec fn mirror_remote_refs_spec(objects: Seq<char>, remote: Seq<char>) -> Seq<char> {
    join_spec(join_spec(join_spec(objects, "refs"@), "remotes"@), remote)
}

/// The branch heads of the repository whose git directory is `git_dir`.
pub open spec fn heads_spec(git_dir: Seq<char>) -> Seq<char> {
    join_spec(join_spec(git_dir, "refs"@), "heads"@)
}

pub open spec fn repo_url_spec(url: Seq<char>, project: Seq<char>) -> Seq<char> {
    url + project + ".git"@
}

/// What `Depot::fetch_repo` plans for a valid project.
pub open spec fn fetch_plan_spec(
    root: Seq<char>,
    remote: RemoteConfig,
    project: Seq<char>,
    branch: Seq<char>,
    depth: Option<i32>,
    p: FetchPlan,
) -> bool {
    let objects = objects_mirror_spec(root, project);
    let refs = refs_mirror_spec(root, remote.name@, project);
    let url = repo_url_spec(remote.url@, project);
    &&& p.objects_path@ == objects
    &&& p.remote_name@ == remote.name@
    &&& p.repo_url@ == url
    &&& p.branch@ == branch
    &&& p.transport == transport_spec(url_scheme_of(url), depth)
    &&& p.refs_path@ == refs
    &&& alternates_plan_spec(p.refs_mirror_init, objects, refs, true)
    &&& p.refs_update.src@ == mirror_remote_refs_spec(objects, remote.name@)
    &&& p.refs_update.dst@ == heads_spec(refs)
}

/// The refresh of a checkout's remote-tracking refs from the ref mirror.
pub open spec fn update_refs_spec(
    root: Seq<char>,
    remote: Seq<char>,
    project: Seq<char>,
    path: Seq<char>,
    nonbare: bool,
    p: ReplacePlan,
) -> bool {
    &&& p.src@ == heads_spec(refs_mirror_spec(root, remote, project))
    &&& p.dst@ == join_spec(join_spec(join_spec(git_path_spec(path, nonbare), "refs"@), "remotes"@), remote)
}

/// What `Depot::clone_repo` plans.
pub open spec fn clone_plan_spec(
    root: Seq<char>,
    remote: RemoteConfig,
    project: Seq<char>,
    branch: Seq<char>,
    path: Seq<char>,
    p: ClonePlan,
) -> bool {
    &&& alternates_plan_spec(p.init, objects_mirror_spec(root, project), path, false)
    &&& p.remote_name@ == remote.name@
    &&& p.fetch_url@ == refs_mirror_spec(root, remote.name@, project)
    &&& p.push_url@ == remote.url@ + project
    &&& update_refs_spec(root, remote.name@, project, path, true, p.refs_update)
    &&& p.branch@ == branch
}

/// A new checkout shares the object mirror's objects: its alternates file is
/// `<path>/.git/objects/info/alternates` and holds the object mirror's
/// object directory followed by a newline.
pub proof fn lemma_clone_alternates_point_to_mirror(
    root: Seq<char>,
    remote: RemoteConfig,
    project: Seq<char>,
    branch: Seq<char>,
    path: Seq<char>,
    p: ClonePlan,
)
    requires
        clone_plan_spec(root, remote, project, branch, path, p),
        path.len() > 0,
        !ends_with_sep(path),
    ensures
        p.init.repo_path@ == path,
        !p.init.bare,
        p.init.alternates_file@ == path + "/.git/objects/info/alternates"@,
        p.init.contents@ == objects_mirror_spec(root, project) + "/objects\n"@,
{
    reveal_strlit(".git");
    reveal_strlit("objects");
    reveal_strlit("info");
    reveal_strlit("alternates");
    reveal_strlit("\n");
    reveal_strlit("/objects\n");
    reveal_strlit("/.git/objects/info/alternates");
    let g = join_spec(path, ".git"@);
    lemma_join_plain(path, ".git"@);
    lemma_join_last(path, ".git"@);
    let o = join_spec(g, "objects"@);
    lemma_join_plain(g, "objects"@);
    lemma_join_last(g, "objects"@);
    let i = join_spec(o, "info"@);
    lemma_join_plain(o, "info"@);
    lemma_join_last(o, "info"@);
    lemma_join_plain(i, "alternates"@);
    assert(p.init.alternates_file@ =~= path + "/.git/objects/info/alternates"@);
    let m = objects_mirror_spec(root, project);
    lemma_join_last(join_spec(root, "objects"@), project + ".git"@);
    lemma_join_plain(m, "objects"@);
    assert(p.init.contents@ =~= m + "/objects\n"@);
}

/// A remote name usable as one path component.
pub open spec fn valid_remote_name(name: Seq<char>) -> bool {
    name.len() > 0 && !starts_with_sep(name) && !ends_with_sep(name)
}

proof fn lemma_refs_mirror_shape(root: Seq<char>, remote: Seq<char>, project: Seq<char>)
    requires
        valid_remote_name(remote),
        valid_project(project),
    ensures
        refs_mirror_spec(root, remote, project) == join_spec(root, "refs"@) + seq!['/'] + remote
            + seq!['/'] + (project + ".git"@),
        refs_mirror_spec(root, remote, project).len() > 0,
        refs_mirror_spec(root, remote, project).last() == 't',
{
    reveal_strlit("refs");
    reveal_strlit(".git");
    let x = join_spec(root, "refs"@);
    lemma_join_last(root, "refs"@);
    lemma_join_plain(x, remote);
    lemma_join_last(x, remote);
    let xa = join_spec(x, remote);
    let pg = project + ".git"@;
    if project.len() > 0 {
        assert(pg[0] == project[0]);
    }
    lemma_join_plain(xa, pg);
    lemma_join_last(xa, pg);
}

/// Two remotes fetching the same project keep apart: each fetch replaces
/// the heads of its own ref mirror only, and fills them from its own
/// remote-tracking refs, so a fetch from one never writes the other's
/// mirror.
pub proof fn lemma_ref_mirrors_isolated(
    root: Seq<char>,
    remote_a: RemoteConfig,
    remote_b: RemoteConfig,
    project: Seq<char>,
    branch_a: Seq<char>,
    branch_b: Seq<char>,
    depth_a: Option<i32>,
    depth_b: Option<i32>,
    plan_a: FetchPlan,
    plan_b: FetchPlan,
)
    requires
        valid_remote_name(remote_a.name@),
        valid_remote_name(remote_b.name@),
        remote_a.name@ != remote_b.name@,
        valid_project(project),
        fetch_plan_spec(root, remote_a, project, branch_a, depth_a, plan_a),
        fetch_plan_spec(root, remote_b, project, branch_b, depth_b, plan_b),
    ensures
        plan_a.refs_path@ == refs_mirror_spec(root, remote_a.name@, project),
        plan_a.refs_update.dst@ == heads_spec(refs_mirror_spec(root, remote_a.name@, project)),
        plan_a.refs_update.src@ == mirror_remote_refs_spec(
            objects_mirror_spec(root, project),
            remote_a.name@,
        ),
        plan_a.refs_path@ != plan_b.refs_path@,
        plan_a.refs_update.dst@ != plan_b.refs_update.dst@,
        plan_a.refs_update.src@ != plan_b.refs_update.src@,
        plan_a.objects_path@ == plan_b.objects_path@,
{
    reveal_strlit("refs");
    reveal_strlit("heads");
    reveal_strlit("remotes");
    let a = remote_a.name@;
    let b = remote_b.name@;
    let x = join_spec(root, "refs"@);
    let tail = seq!['/'] + (project + ".git"@);
    lemma_refs_mirror_shape(root, a, project);
    lemma_refs_mirror_shape(root, b, project);
    let ra = refs_mirror_spec(root, a, project);
    let rb = refs_mirror_spec(root, b, project);
    lemma_distinct_suffix(a, b, tail);
    lemma_distinct_prefix(x + seq!['/'], a + tail, b + tail);
    assert(ra =~= (x + seq!['/']) + (a + tail));
    assert(rb =~= (x + seq!['/']) + (b + tail));
    let hs = seq!['/'] + "refs"@ + seq!['/'] + "heads"@;
    lemma_join_plain(ra, "refs"@);
    lemma_join_last(ra, "refs"@);
    lemma_join_plain(join_spec(ra, "refs"@), "heads"@);
    lemma_join_plain(rb, "refs"@);
    lemma_join_last(rb, "refs"@);
    lemma_join_plain(join_spec(rb, "refs"@), "heads"@);
    assert(heads_spec(ra) =~= ra + hs);
    assert(heads_spec(rb) =~= rb + hs);
    lemma_distinct_suffix(ra, rb, hs);
    let o = objects_mirror_spec(root, project);
    let rr = join_spec(join_spec(o, "refs"@), "remotes"@);
    lemma_join_last(join_spec(o, "refs"@), "remotes"@);
    lemma_join_plain(rr, a);
    lemma_join_plain(rr, b);
    lemma_distinct_prefix(rr + seq!['/'], a, b);
}

/// Sets up a repository at `dst` whose object store defers to the one at
/// `src`, instead of copying its objects.
pub fn clone_alternates(src: &str, dst: &str, bare: bool) -> (r: AlternatesPlan)
    ensures
        alternates_plan_spec(r, src@, dst@, bare),
{
    let git_dir = if bare {
        dst.to_owned()
    } else {
        join(dst, ".git")
    };
    let objects = join(git_dir.as_str(), "objects");
    let info = join(objects.as_str(), "info");
    let alternates_file = join(info.as_str(), "alternates");
    let source = join(src, "objects");
    proof {
        reveal_strlit("\n");
    }
    let contents = source.concat("\n");
    AlternatesPlan { repo_path: dst.to_owned(), bare, alternates_file, contents }
}

impl Depot {
    pub fn new(name: String, path: String) -> (r: Result<Depot, DepotError>)
        ensures
            r matches Ok(d) && d.name@ == name@ && d.path@ == path@,
    {
        Ok(Depot { name, path })
    }

    /// The git directory of the repository at `path`, given whether
    /// `path/.git` exists.
    pub fn git_path(path: &str, nonbare_exists: bool) -> (r: String)
        ensures
            r@ == git_path_spec(path@, nonbare_exists),
    {
        if nonbare_exists {
            join(path, ".git")
        } else {
            path.to_owned()
        }
    }

    /// `objects/<project>.git` under the depot root.
    pub fn objects_mirror(&self, project: &str) -> (r: String)
        ensures
            r@ == objects_mirror_spec(self.path@, project@),
    {
        proof {
            reveal_strlit(".git");
        }
        let objects = join(self.path.as_str(), "objects");
        let repo_name = project.to_owned().concat(".git");
        join(objects.as_str(), repo_name.as_str())
    }

    /// `refs/<remote>/<project>.git` under the depot root.
    pub fn refs_mirror(&self, remote: &str, project: &str) -> (r: String)
        ensures
            r@ == refs_mirror_spec(self.path@, remote@, project@),
    {
        proof {
            reveal_strlit(".git");
        }
        let refs = join(self.path.as_str(), "refs");
        let remote_dir = join(refs.as_str(), remote);
        let repo_name = project.to_owned().concat(".git");
        join(remote_dir.as_str(), repo_name.as_str())
    }
    /// Plans a fetch of `project` from `remote_config` into the object
    /// mirror, followed by a full refresh of that remote's ref mirror.
    /// A project path with a leading or trailing separator is refused
    /// before anything is planned.
    pub fn fetch_repo(
        &self,
        remote_config: &RemoteConfig,
        project: &str,
        branch: &str,
        depth: Option<i32>,
    ) -> (r: Result<FetchPlan, DepotError>)
        ensures
            r is Err <==> !valid_project(project@),
            r matches Err(e) ==> (e matches DepotError::InvalidProject(p) && p@ == project@),
            r matches Ok(p) ==> fetch_plan_spec(
                self.path@,
                *remote_config,
                project@,
                branch@,
                depth,
                p,
            ),
    {
        let chars = chars_of(project);
        if chars.len() > 0 && (chars[0] == '/' || chars[chars.len() - 1] == '/') {
            return Err(DepotError::InvalidProject(project.to_owned()));
        }
        proof {
            reveal_strlit(".git");
        }
        let objects_path = self.objects_mirror(project);
        let repo_url = remote_config.url.clone().concat(project).concat(".git");
        let scheme = url_scheme(repo_url.as_str());
        let transport = match &scheme {
            Some(s) => select_transport(Some(s.as_str()), depth),
            None => select_transport(None, depth),
        };
        let refs_path = self.refs_mirror(remote_config.name.as_str(), project);
        let refs_mirror_init = clone_alternates(objects_path.as_str(), refs_path.as_str(), true);
        let refs_a = join(objects_path.as_str(), "refs");
        let refs_b = join(refs_a.as_str(), "remotes");
        let src = join(refs_b.as_str(), remote_config.name.as_str());
        let heads_a = join(refs_path.as_str(), "refs");
        let dst = join(heads_a.as_str(), "heads");
        Ok(
            FetchPlan {
                objects_path,
                remote_name: remote_config.name.clone(),
                repo_url,
                branch: branch.to_owned(),
                transport,
                refs_path,
                refs_mirror_init,
                refs_update: ReplacePlan { src, dst },
            },
        )
    }

    /// Plans a refresh of the remote-tracking refs of the checkout at `path`
    /// from the ref mirror, given whether `path/.git` exists. The working
    /// files are not touched.
    pub fn update_remote_refs(
        &self,
        remote_config: &RemoteConfig,
        project: &str,
        path: &str,
        nonbare_exists: bool,
    ) -> (r: ReplacePlan)
        ensures
            update_refs_spec(self.path@, remote_config.name@, project@, path@, nonbare_exists, r),
    {
        let mirror = self.refs_mirror(remote_config.name.as_str(), project);
        let mirror_refs = join(mirror.as_str(), "refs");
        let src = join(mirror_refs.as_str(), "heads");
        let git_dir = Depot::git_path(path, nonbare_exists);
        let repo_refs = join(git_dir.as_str(), "refs");
        let remotes = join(repo_refs.as_str(), "remotes");
        let dst = join(remotes.as_str(), remote_config.name.as_str());
        ReplacePlan { src, dst }
    }

    /// Plans a new working checkout of `project` at `path`: objects shared
    /// with the object mirror, fetches from the ref mirror, pushes to the
    /// real remote, tracking refs copied from the ref mirror, and `branch`
    /// checked out detached.
    pub fn clone_repo(
        &self,
        remote_config: &RemoteConfig,
        project: &str,
        branch: &str,
        path: &str,
    ) -> (r: ClonePlan)
        ensures
            clone_plan_spec(self.path@, *remote_config, project@, branch@, path@, r),
    {
        let objects = self.objects_mirror(project);
        let init = clone_alternates(objects.as_str(), path, false);
        let fetch_url = self.refs_mirror(remote_config.name.as_str(), project);
        let push_url = remote_config.url.clone().concat(project);
        let refs_update = self.update_remote_refs(remote_config, project, path, true);
        ClonePlan {
            init,
            remote_name: remote_config.name.clone(),
            fetch_url,
            push_url,
            refs_update,
            branch: branch.to_owned(),
        }
    }
}

/// Whether `i` is the index of the first depot of `depots` named `name`.
pub open spec fn is_first_depot(depots: Seq<DepotConfig>, name: Seq<char>, i: int) -> bool {
    &&& 0 <= i < depots.len()
    &&& depots[i].name@ == name
    &&& forall|j: int| 0 <= j < i ==> depots[j].name@ != name
}

impl Config {
    /// Finds the first depot with the given name.
    pub fn find_depot(&self, name: &str) -> (r: Result<Depot, ConfigError>)
        ensures
            r is Ok <==> exists|i: int| 0 <= i < self.depots@.len() && self.depots@[i].name@ == name@,
            r matches Ok(d) ==> exists|i: int|
                is_first_depot(self.depots@, name@, i) && d.name@ == self.depots@[i].name@
                    && d.path@ == self.depots@[i].path@,
            r matches Err(e) ==> (e matches ConfigError::UnknownDepot(n) && n@ == name@),
    {
        let key = name.to_owned();
        let mut i: usize = 0;
        while i < self.depots.len()
            invariant
                0 <= i <= self.depots@.len(),
                key@ == name@,
                forall|j: int| 0 <= j < i ==> self.depots@[j].name@ != name@,
            decreases self.depots@.len() - i,
        {
            if self.depots[i].name == key {
                let dc = &self.depots[i];
                assert(is_first_depot(self.depots@, name@, i as int));
                return Ok(Depot { name: dc.name.clone(), path: dc.path.clone() });
            }
            i = i + 1;
        }
        Err(ConfigError::UnknownDepot(key))
    }
}

} // verus!
