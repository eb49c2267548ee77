use pore::config::{Config, ConfigError, DepotConfig, RemoteConfig};
use pore::depot::{Depot, DepotError, ReplacePlan, Transport};
use pore::replace::FsStep;

fn remote(name: &str, url: &str) -> RemoteConfig {
    RemoteConfig { name: name.to_string(), url: url.to_string(), depot: "main".to_string() }
}

fn depot() -> Depot {
    Depot::new("main".to_string(), "/depot".to_string()).unwrap()
}

#[test]
fn mirror_paths_follow_layout() {
    let d = depot();
    assert_eq!(d.objects_mirror("platform/build"), "/depot/objects/platform/build.git");
    assert_eq!(d.refs_mirror("aosp", "platform/build"), "/depot/refs/aosp/platform/build.git");
    let trailing = Depot::new("x".to_string(), "/cache/".to_string()).unwrap();
    assert_eq!(trailing.objects_mirror("p"), "/cache/objects/p.git");
}

#[test]
fn git_path_of_bare_and_working_repos() {
    assert_eq!(Depot::git_path("/work/p", true), "/work/p/.git");
    assert_eq!(Depot::git_path("/depot/refs/a/p.git", false), "/depot/refs/a/p.git");
}

#[test]
fn invalid_project_rejected() {
    let d = depot();
    let r = remote("origin", "https://example.com/");
    assert_eq!(d.fetch_repo(&r, "/x", "main", None).unwrap_err(), DepotError::InvalidProject("/x".to_string()));
    assert_eq!(d.fetch_repo(&r, "x/", "main", None).unwrap_err(), DepotError::InvalidProject("x/".to_string()));
    assert!(d.fetch_repo(&r, "x", "main", None).is_ok());
}

#[test]
fn fetch_plan_native_for_https_without_depth() {
    let d = depot();
    let r = remote("origin", "https://example.com/");
    let p = d.fetch_repo(&r, "platform/build", "main", None).unwrap();
    assert_eq!(p.objects_path, "/depot/objects/platform/build.git");
    assert_eq!(p.repo_url, "https://example.com/platform/build.git");
    assert_eq!(p.transport, Transport::Native);
    assert_eq!(p.refs_path, "/depot/refs/origin/platform/build.git");
    assert_eq!(p.refs_update.src, "/depot/objects/platform/build.git/refs/remotes/origin");
    assert_eq!(p.refs_update.dst, "/depot/refs/origin/platform/build.git/refs/heads");
    assert!(p.refs_mirror_init.bare);
    assert_eq!(p.refs_mirror_init.alternates_file, "/depot/refs/origin/platform/build.git/objects/info/alternates");
    assert_eq!(p.refs_mirror_init.contents, "/depot/objects/platform/build.git/objects\n");
}

#[test]
fn fetch_plan_external_for_depth_or_other_scheme() {
    let d = depot();
    let r = remote("origin", "https://example.com/");
    let p = d.fetch_repo(&r, "p", "main", Some(1)).unwrap();
    assert_eq!(p.transport, Transport::External { depth: Some(1) });
    let f = remote("local", "file:///srv/git/");
    let p = d.fetch_repo(&f, "p", "main", None).unwrap();
    assert_eq!(p.transport, Transport::External { depth: None });
    let s = remote("scp", "git@example.com:");
    let p = d.fetch_repo(&s, "p", "main", None).unwrap();
    assert_eq!(p.transport, Transport::Native);
}

#[test]
fn transport_selection() {
    assert_eq!(pore::depot::select_transport(Some("ssh"), None), Transport::Native);
    assert_eq!(pore::depot::select_transport(Some("git"), None), Transport::Native);
    assert_eq!(pore::depot::select_transport(Some("http"), None), Transport::Native);
    assert_eq!(pore::depot::select_transport(None, None), Transport::Native);
    assert_eq!(pore::depot::select_transport(Some("file"), None), Transport::External { depth: None });
    assert_eq!(pore::depot::select_transport(Some("https"), Some(3)), Transport::External { depth: Some(3) });
}

#[test]
fn ref_mirrors_of_two_remotes_are_disjoint() {
    let d = depot();
    let a = d.fetch_repo(&remote("a", "https://a.example/"), "proj", "main", None).unwrap();
    let b = d.fetch_repo(&remote("b", "https://b.example/"), "proj", "main", None).unwrap();
    assert_eq!(a.objects_path, b.objects_path);
    assert_ne!(a.refs_update.dst, b.refs_update.dst);
    assert_ne!(a.refs_update.src, b.refs_update.src);
    assert_eq!(a.refs_update.dst, "/depot/refs/a/proj.git/refs/heads");
    assert_eq!(b.refs_update.src, "/depot/objects/proj.git/refs/remotes/b");
}

#[test]
fn clone_plan_uses_alternates_and_ref_mirror() {
    let d = depot();
    let r = remote("origin", "https://example.com/");
    let p = d.clone_repo(&r, "proj", "main", "/work/proj");
    assert_eq!(p.init.repo_path, "/work/proj");
    assert!(!p.init.bare);
    assert_eq!(p.init.alternates_file, "/work/proj/.git/objects/info/alternates");
    assert_eq!(p.init.contents, "/depot/objects/proj.git/objects\n");
    assert_eq!(p.fetch_url, "/depot/refs/origin/proj.git");
    assert_eq!(p.push_url, "https://example.com/proj");
    assert_eq!(p.refs_update.src, "/depot/refs/origin/proj.git/refs/heads");
    assert_eq!(p.refs_update.dst, "/work/proj/.git/refs/remotes/origin");
    assert_eq!(p.branch, "main");
}

#[test]
fn update_remote_refs_targets_tracking_refs() {
    let d = depot();
    let r = remote("origin", "https://example.com/");
    let p = d.update_remote_refs(&r, "proj", "/work/proj", true);
    assert_eq!(p.src, "/depot/refs/origin/proj.git/refs/heads");
    assert_eq!(p.dst, "/work/proj/.git/refs/remotes/origin");
}

#[test]
fn replace_requires_source() {
    let plan = ReplacePlan { src: "/s".to_string(), dst: "/d".to_string() };
    let r = Depot::replace_dir(&plan, false, true, &vec![]);
    assert_eq!(r.unwrap_err(), DepotError::MissingSource("/s".to_string()));
}

#[test]
fn replace_deletes_recreates_and_copies() {
    let plan = ReplacePlan { src: "/s".to_string(), dst: "/d".to_string() };
    let names = vec!["main".to_string(), "dev".to_string()];
    let steps = Depot::replace_dir(&plan, true, true, &names).unwrap();
    assert_eq!(steps.len(), 4);
    assert!(matches!(&steps[0], FsStep::RemoveDirAll { dir } if dir == "/d"));
    assert!(matches!(&steps[1], FsStep::CreateDirAll { dir } if dir == "/d"));
    assert!(matches!(&steps[2], FsStep::Copy { src_dir, dst_dir, name } if src_dir == "/s" && dst_dir == "/d" && name == "main"));
    assert!(matches!(&steps[3], FsStep::Copy { name, .. } if name == "dev"));
    let fresh = Depot::replace_dir(&plan, true, false, &names).unwrap();
    assert_eq!(fresh.len(), 3);
    assert!(matches!(&fresh[0], FsStep::CreateDirAll { dir } if dir == "/d"));
}

#[test]
fn replace_twice_gives_same_steps_for_same_source() {
    let plan = ReplacePlan { src: "/s".to_string(), dst: "/d".to_string() };
    let names = vec!["main".to_string()];
    let once = Depot::replace_dir(&plan, true, true, &names).unwrap();
    let twice = Depot::replace_dir(&plan, true, true, &names).unwrap();
    assert_eq!(format!("{:?}", once), format!("{:?}", twice));
}

#[test]
fn config_lookups() {
    let config = Config {
        remotes: vec![remote("origin", "https://example.com/"), remote("origin", "https://other/")],
        depots: vec![DepotConfig { name: "main".to_string(), path: "/depot".to_string() }],
    };
    assert_eq!(config.find_remote("origin").unwrap().url, "https://example.com/");
    assert_eq!(config.find_remote("nope").unwrap_err(), ConfigError::UnknownRemote("nope".to_string()));
    assert_eq!(config.find_depot("main").unwrap().path, "/depot");
    assert_eq!(config.find_depot("x").unwrap_err(), ConfigError::UnknownDepot("x".to_string()));
}
