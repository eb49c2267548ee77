use pore::command::{plan_clone, resolve_remote_depot, CommandError};
use pore::config::{Config, ConfigError, DepotConfig, RemoteConfig};
use pore::target::{parse_group_filters, parse_target, split_on, tree_root_dir, TargetError};
use pore::tree::{
    aggregate_exit_code, job_fetches, path_in_scope, path_under, project_eligible, select_projects,
    sync_action, CheckoutType, FetchType, GroupFilter, Project, SyncAction, Tree,
};

fn s(v: &str) -> String {
    v.to_string()
}

fn project(path: &str, groups: &[&str]) -> Project {
    Project {
        path: s(path),
        remote: RemoteConfig { name: s("origin"), url: s("https://example.com/"), depot: s("main") },
        branch: s("main"),
        groups: groups.iter().map(|g| s(g)).collect(),
    }
}

fn config() -> Config {
    Config {
        remotes: vec![RemoteConfig { name: s("origin"), url: s("https://example.com/"), depot: s("main") }],
        depots: vec![DepotConfig { name: s("main"), path: s("/depot") }],
    }
}

#[test]
fn group_filter_semantics() {
    let filters = vec![GroupFilter::Include(s("x")), GroupFilter::Exclude(s("y"))];
    assert!(!project_eligible(&vec![s("x"), s("y")], &filters));
    assert!(project_eligible(&vec![s("x")], &filters));
    assert!(!project_eligible(&vec![], &filters));
    assert!(project_eligible(&vec![], &vec![]));
    assert!(project_eligible(&vec![s("z")], &vec![]));
    assert!(project_eligible(&vec![s("z")], &vec![GroupFilter::Exclude(s("y"))]));
}

#[test]
fn path_scoping() {
    let projects = vec![project("a", &[]), project("a/b", &[]), project("c", &[])];
    let scope = vec![s("a")];
    assert_eq!(select_projects(&projects, &vec![], Some(&scope)), vec![0, 1]);
    assert_eq!(select_projects(&projects, &vec![], None), vec![0, 1, 2]);
    let both = vec![s("c"), s("a/b")];
    assert_eq!(select_projects(&projects, &vec![], Some(&both)), vec![1, 2]);
}

#[test]
fn path_under_rules() {
    assert!(path_under("a", "a"));
    assert!(path_under("a/b", "a"));
    assert!(path_under("a/b", "a/"));
    assert!(!path_under("ab", "a"));
    assert!(!path_under("a", "a/b"));
    assert!(path_in_scope("anything", None));
}

#[test]
fn selection_combines_groups_and_scope() {
    let projects = vec![project("a", &["x"]), project("a/b", &["y"]), project("c", &["x"])];
    let filters = vec![GroupFilter::Include(s("x"))];
    let scope = vec![s("a")];
    assert_eq!(select_projects(&projects, &filters, Some(&scope)), vec![0]);
}

#[test]
fn fan_out_exit_code() {
    assert_eq!(aggregate_exit_code(&vec![1, 0]), 1);
    assert_eq!(aggregate_exit_code(&vec![0, 0]), 0);
    assert_eq!(aggregate_exit_code(&vec![]), 0);
    assert_eq!(aggregate_exit_code(&vec![0, 128, 0]), 1);
}

#[test]
fn sync_jobs_cover_every_selected_project() {
    let tree = Tree {
        root: s("/work/main"),
        remote: s("origin"),
        branch: s("main"),
        manifest_project: s("manifest"),
        group_filters: vec![],
        projects: vec![project("manifest", &[]), project("p", &[]), project("q", &[])],
    };
    let jobs = tree.sync_jobs(None, FetchType::FetchExceptManifest);
    assert_eq!(jobs.len(), 3);
    assert_eq!((jobs[0].project, jobs[0].fetch), (0, false));
    assert_eq!((jobs[1].project, jobs[1].fetch), (1, true));
    assert_eq!((jobs[2].project, jobs[2].fetch), (2, true));
    let scope = vec![s("q")];
    let jobs = tree.sync_jobs(Some(&scope), FetchType::NoFetch);
    assert_eq!(jobs.len(), 1);
    assert_eq!((jobs[0].project, jobs[0].fetch), (2, false));
}

#[test]
fn fetch_and_checkout_modes() {
    assert!(job_fetches(FetchType::Fetch, true));
    assert!(!job_fetches(FetchType::NoFetch, false));
    assert!(!job_fetches(FetchType::FetchExceptManifest, true));
    assert!(job_fetches(FetchType::FetchExceptManifest, false));
    assert_eq!(sync_action(CheckoutType::Checkout, false), SyncAction::Clone);
    assert_eq!(sync_action(CheckoutType::Checkout, true), SyncAction::RefreshRefsAndFiles);
    assert_eq!(sync_action(CheckoutType::NoCheckout, true), SyncAction::RefreshRefs);
    assert_eq!(sync_action(CheckoutType::NoCheckout, false), SyncAction::Nothing);
}

#[test]
fn forall_environment() {
    let tree = Tree {
        root: s("/work/main"),
        remote: s("origin"),
        branch: s("main"),
        manifest_project: s("manifest"),
        group_filters: vec![],
        projects: vec![project("a/b", &[])],
    };
    let env = tree.forall_env(&tree.projects[0]);
    assert_eq!(env, vec![(s("PORE_ROOT"), s("/work/main")), (s("PORE_ROOT_REL"), s("a/b"))]);
}

#[test]
fn targets_parse() {
    assert_eq!(parse_target("origin/main").unwrap(), (s("origin"), s("main")));
    assert_eq!(parse_target("origin").unwrap(), (s("origin"), s("master")));
    assert_eq!(parse_target("a/b/c").unwrap_err(), TargetError::InvalidTarget(s("a/b/c")));
}

#[test]
fn split_keeps_empty_pieces() {
    assert_eq!(split_on("a,,b", ','), vec![s("a"), s(""), s("b")]);
    assert_eq!(split_on("", ','), vec![s("")]);
    assert_eq!(split_on("x", ','), vec![s("x")]);
}

#[test]
fn group_lists_parse() {
    assert_eq!(
        parse_group_filters(Some("x,-y")),
        vec![GroupFilter::Include(s("x")), GroupFilter::Exclude(s("y"))]
    );
    assert_eq!(parse_group_filters(None), vec![]);
    assert_eq!(parse_group_filters(Some("-")), vec![GroupFilter::Exclude(s(""))]);
}

#[test]
fn clone_into_branch_directory() {
    let (remote, branch) = parse_target("origin/main").unwrap();
    assert_eq!(remote, "origin");
    assert_eq!(tree_root_dir(None, &branch), "main");
    assert_eq!(tree_root_dir(Some("."), &branch), ".");
    let plan = plan_clone(&config(), "origin/main", None, None, true).unwrap();
    assert_eq!(plan.root, "main");
    assert_eq!(plan.branch, "main");
    assert_eq!(plan.remote.name, "origin");
    assert_eq!(plan.depot.path, "/depot");
    assert!(plan.group_filters.is_empty());
    assert_eq!(plan.fetch_type, FetchType::FetchExceptManifest);
    let local = plan_clone(&config(), "origin", Some("tree"), Some("-y"), false).unwrap();
    assert_eq!(local.root, "tree");
    assert_eq!(local.branch, "master");
    assert_eq!(local.fetch_type, FetchType::NoFetch);
    assert_eq!(local.group_filters, vec![GroupFilter::Exclude(s("y"))]);
}

#[test]
fn clone_setup_errors() {
    assert_eq!(
        plan_clone(&config(), "a/b/c", None, None, true).unwrap_err(),
        CommandError::InvalidTarget(s("a/b/c"))
    );
    assert_eq!(
        plan_clone(&config(), "nope/main", None, None, true).unwrap_err(),
        CommandError::Config(ConfigError::UnknownRemote(s("nope")))
    );
    let mut c = config();
    c.depots.clear();
    assert_eq!(resolve_remote_depot(&c, "origin").unwrap_err(), ConfigError::UnknownDepot(s("main")));
}

#[test]
fn project_containing_a_directory() {
    let tree = Tree {
        root: s("/work/main"),
        remote: s("origin"),
        branch: s("main"),
        manifest_project: s("manifest"),
        group_filters: vec![],
        projects: vec![project("a", &[]), project("a/b", &[]), project("c", &[])],
    };
    assert_eq!(tree.project_at("a/b/src"), Some(1));
    assert_eq!(tree.project_at("a/x"), Some(0));
    assert_eq!(tree.project_at("c"), Some(2));
    assert_eq!(tree.project_at("d"), None);
}
