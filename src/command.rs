//! The decisions of the tree-wide commands, before any I/O: which remote and
//! depot a command works against, and what a clone sets up.

use vstd::prelude::*;

use crate::config::{Config, ConfigError, RemoteConfig, is_first_remote, same_remote};
use crate::depot::{Depot, is_first_depot};
use crate::target::{filter_spec, parse_group_filters, parse_target, split_spec, target_spec, tree_root_dir};
use crate::tree::{FetchType, GroupFilter};

verus! {

/// Why a command could not be set up.
#[derive(Clone, Debug, PartialEq, Eq)]
pub enum CommandError {
    InvalidTarget(String),
    Config(ConfigError),
}

/// What `clone` sets up: where the tree goes, from which remote, depot and
/// branch, with which filters, and how its sync fetches.
#[derive(Clone, Debug)]
pub struct ClonePlanTree {
    pub remote: RemoteConfig,
    pub depot: Depot,
    pub branch: String,
    pub root: String,
    pub group_filters: Vec<GroupFilter>,
    pub fetch_type: FetchType,
}

/// The remote named `remote` and the depot it names.
pub open spec fn resolved_spec(config: Config, remote: Seq<char>, rc: RemoteConfig, d: Depot) -> bool {
    &&& exists|i: int| is_first_remote(config.remotes@, remote, i) && same_remote(rc, config.remotes@[i])
    &&& exists|j: int|
        is_first_depot(config.depots@, rc.depot@, j) && d.name@ == config.depots@[j].name@
            && d.path@ == config.depots@[j].path@
}

/// Finds the remote named `remote` and then the depot that it names.
pub fn resolve_remote_depot(config: &Config, remote: &str) -> (r: Result<(RemoteConfig, Depot), ConfigError>)
    ensures
        r matches Ok((rc, d)) ==> resolved_spec(*config, remote@, rc, d),
        r is Err <==> resolve_remote_depot_fails(*config, remote@),
        r matches Err(ConfigError::UnknownRemote(n)) ==> n@ == remote@ && !exists|i: int|
            0 <= i < config.remotes@.len() && config.remotes@[i].name@ == remote@,
        r matches Err(ConfigError::UnknownDepot(n)) ==> exists|i: int|
            is_first_remote(config.remotes@, remote@, i) && n@ == config.remotes@[i].depot@,
{
    let rc = match config.find_remote(remote) {
        Ok(rc) => rc,
        Err(e) => return Err(e),
    };
    let ghost i = choose|i: int| is_first_remote(config.remotes@, remote@, i) && same_remote(rc, config.remotes@[i]);
    assert forall|k: int| is_first_remote(config.remotes@, remote@, k) implies k == i by {
        if k < i {
            assert(config.remotes@[k].name@ != remote@);
        } else if k > i {
            assert(config.remotes@[i].name@ != remote@);
        }
    }
    match config.find_depot(rc.depot.as_str()) {
        Ok(d) => Ok((rc, d)),
        Err(e) => Err(e),
    }
}

/// The fetch mode of the first sync of a new tree: the manifest project was
/// just fetched while the tree was built, so it is skipped.
pub open spec fn clone_fetch_type_spec(fetch: bool) -> FetchType {
    if fetch {
        FetchType::FetchExceptManifest
    } else {
        FetchType::NoFetch
    }
}

/// Sets up a clone of `target` (`<remote>[/<branch>]`) into `directory`
/// (the branch name where none is given), filtered by `group_filters`.
pub fn plan_clone(
    config: &Config,
    target: &str,
    directory: Option<&str>,
    group_filters: Option<&str>,
    fetch: bool,
) -> (r: Result<ClonePlanTree, CommandError>)
    ensures
        target_spec(target@) is None ==> (r matches Err(CommandError::InvalidTarget(t)) && t@ == target@),
        r matches Ok(p) ==> ({
            let (remote, branch) = target_spec(target@)->0;
            &&& target_spec(target@) is Some
            &&& resolved_spec(*config, remote, p.remote, p.depot)
            &&& p.branch@ == branch
            &&& p.root@ == match directory {
                Some(d) => d@,
                None => branch,
            }
            &&& p.fetch_type == clone_fetch_type_spec(fetch)
            &&& match group_filters {
                None => p.group_filters@.len() == 0,
                Some(g) => p.group_filters@.len() == split_spec(g@, ',').len() && forall|k: int|
                    0 <= k < p.group_filters@.len() ==> filter_spec(
                        split_spec(g@, ',')[k],
                        #[trigger] p.group_filters@[k],
                    ),
            }
        }),
        target_spec(target@) is Some ==> (r is Err <==> resolve_remote_depot_fails(*config, (target_spec(target@)->0).0)),
{
    let (remote, branch) = match parse_target(target) {
        Ok(rb) => rb,
        Err(crate::target::TargetError::InvalidTarget(t)) => return Err(CommandError::InvalidTarget(t)),
    };
    let (remote_config, depot) = match resolve_remote_depot(config, remote.as_str()) {
        Ok(x) => x,
        Err(e) => return Err(CommandError::Config(e)),
    };
    let root = tree_root_dir(directory, branch.as_str());
    let filters = parse_group_filters(group_filters);
    let fetch_type = if fetch {
        FetchType::FetchExceptManifest
    } else {
        FetchType::NoFetch
    };
    Ok(ClonePlanTree { remote: remote_config, depot, branch, root, group_filters: filters, fetch_type })
}

/// Whether resolving `remote` and its depot fails.
pub open spec fn resolve_remote_depot_fails(config: Config, remote: Seq<char>) -> bool {
    (!exists|i: int| 0 <= i < config.remotes@.len() && config.remotes@[i].name@ == remote)
        || (exists|i: int| is_first_remote(config.remotes@, remote, i) && !exists|j: int|
            0 <= j < config.depots@.len() && config.depots@[j].name@ == config.remotes@[i].depot@)
}

} // verus!
