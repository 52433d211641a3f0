use rig_linux::action::Action;
use rig_linux::add::sc_add;
use rig_linux::add::AddOptions;
use rig_linux::add::AddState;
use rig_linux::add::Stage;
use rig_linux::alias::find_aliases;
use rig_linux::catalog::Arch;
use rig_linux::catalog::LinuxVersion;
use rig_linux::current::default_is_missing;
use rig_linux::current::sc_get_default;
use rig_linux::current::sc_set_default;
use rig_linux::detect::detect_linux;
use rig_linux::error::RigError;
use rig_linux::links::sc_system_make_links;
use rig_linux::links::LinkEntry;
use rig_linux::profile::set_cloud_mirror;
use rig_linux::profile::set_rspm;
use rig_linux::profile::set_sysreqs;
use rig_linux::registry::sc_get_list;
use rig_linux::registry::RootEntry;
use rig_linux::remove::sc_rm;
use rig_linux::remove::RmState;
use rig_linux::workflow::Reply;
use rig_linux::workflow::Request;
use std::collections::BTreeMap;
use std::collections::BTreeSet;

struct System {
    versions: BTreeSet<String>,
    links: BTreeMap<String, String>,
    packages: BTreeSet<String>,
    appended: Vec<(String, Vec<String>)>,
    log: Vec<String>,
    privileged: bool,
}

fn empty_system() -> System {
    System {
        versions: BTreeSet::new(),
        links: BTreeMap::new(),
        packages: BTreeSet::new(),
        appended: Vec::new(),
        log: Vec::new(),
        privileged: true,
    }
}

fn resolve(sys: &System, path: &str) -> String {
    let mut path = path.to_string();
    for _ in 0..8 {
        if let Some(target) = sys.links.get(&path) {
            path = target.clone();
            continue;
        }
        let mut changed = false;
        for (link, target) in &sys.links {
            let below = format!("{}/", link);
            if path.starts_with(&below) {
                path = format!("{}/{}", target, &path[below.len()..]);
                changed = true;
                break;
            }
        }
        if !changed {
            break;
        }
    }
    path
}

fn is_there(sys: &System, path: &str) -> bool {
    let path = resolve(sys, path);
    sys.versions.iter().any(|v| {
        let dir = format!("/opt/R/{}", v);
        path == dir
            || path == format!("{}/bin/R", dir)
            || path == format!("{}/bin/Rscript", dir)
            || path == format!("{}/lib/R/library/base/R/Rprofile", dir)
    })
}

fn scan_root(sys: &System) -> Vec<RootEntry> {
    let mut entries: Vec<RootEntry> = sys
        .versions
        .iter()
        .map(|v| RootEntry { name: v.clone(), has_binary: true, has_profile: true })
        .collect();
    if sys.links.contains_key("/opt/R/current") {
        entries.push(RootEntry {
            name: "current".to_string(),
            has_binary: is_there(sys, "/opt/R/current/bin/R"),
            has_profile: is_there(sys, "/opt/R/current/lib/R/library/base/R/Rprofile"),
        });
    }
    entries
}

fn scan_bin(sys: &System) -> Vec<LinkEntry> {
    sys.links
        .iter()
        .filter(|(link, _)| link.starts_with("/usr/local/bin/"))
        .map(|(link, target)| LinkEntry {
            name: link["/usr/local/bin/".len()..].to_string(),
            target: Some(target.clone()),
            target_exists: is_there(sys, target),
        })
        .collect()
}

fn perform(sys: &mut System, plan: &Vec<Action>) -> Result<(), RigError> {
    for action in plan {
        match action {
            Action::Escalate { task } => {
                sys.log.push(format!("escalate {}", task));
                if !sys.privileged {
                    return Err(RigError::InsufficientPrivilege);
                }
            }
            Action::Symlink { target, link } => {
                if sys.links.contains_key(link) {
                    return Err(RigError::FilesystemError { path: link.clone() });
                }
                sys.links.insert(link.clone(), target.clone());
            }
            Action::RemoveIfExists { path } => {
                sys.links.remove(path);
            }
            Action::RemoveDangling { path } => {
                sys.links.remove(path);
            }
            Action::WarnNotLink { path } => sys.log.push(format!("warn {}", path)),
            Action::Append { path, lines } => sys.appended.push((path.clone(), lines.clone())),
            Action::RemoveTree { path } => {
                let name = path["/opt/R/".len()..].to_string();
                sys.versions.remove(&name);
            }
            Action::Run { program, args, .. } => {
                sys.log.push(format!("{} {}", program, args.join(" ")));
                if program == "apt" && args[0] == "install" {
                    sys.versions.insert("4.3.1".to_string());
                    sys.packages.insert("r-4.3.1".to_string());
                }
                if program == "apt-get" && args[0] == "remove" {
                    sys.packages.remove(&args[args.len() - 1]);
                }
            }
            Action::Inform { message } => sys.log.push(format!("info {}", message)),
        }
    }
    Ok(())
}

fn finish(sys: &mut System, actions: &Vec<Action>, failure: Option<RigError>) -> Reply {
    if let Err(error) = perform(sys, actions) {
        return Reply::Failed { error };
    }
    match failure {
        Some(error) => Reply::Failed { error },
        None => Reply::Done,
    }
}

fn make_links(sys: &mut System) -> Reply {
    let plan = sc_system_make_links(&scan_root(sys), &scan_bin(sys));
    finish(sys, &plan.actions, plan.failure)
}

fn set_default(sys: &mut System, version: &str) -> Reply {
    match sc_set_default(version, &scan_root(sys)) {
        Ok(plan) => finish(sys, &plan, None),
        Err(error) => Reply::Failed { error },
    }
}

fn pointer(sys: &System) -> Option<String> {
    sys.links.get("/opt/R/current").cloned()
}

fn host() -> LinuxVersion {
    let lines = vec!["ID=ubuntu".to_string(), "VERSION_ID=\"20.04\"".to_string()];
    detect_linux(&lines, &Vec::new(), Arch::X86_64).unwrap()
}

fn answer(sys: &mut System, request: &Request) -> Reply {
    match request {
        Request::Escalate { task } => {
            sys.log.push(format!("escalate {}", task));
            if sys.privileged {
                Reply::Done
            } else {
                Reply::Failed { error: RigError::InsufficientPrivilege }
            }
        }
        Request::DetectHost => Reply::Host { host: host() },
        Request::Resolve { spec } => {
            sys.log.push(format!("resolve {}", spec));
            if spec == "nothing" {
                Reply::Resolved { version: None, url: None }
            } else {
                Reply::Resolved {
                    version: Some(spec.clone()),
                    url: Some(format!(
                        "https://cdn.rstudio.com/r/ubuntu-2004/pkgs/r-{}_1_amd64.deb",
                        spec
                    )),
                }
            }
        }
        Request::Fetch { url, cache, file } => {
            sys.log.push(format!("fetch {}", url));
            Reply::Fetched { path: format!("/tmp/{}/{}", cache, file) }
        }
        Request::Perform { plan } => finish(sys, plan, None),
        Request::Ask { command } => match command {
            Action::Run { program, args, .. } => {
                sys.log.push(format!("{} {}", program, args.join(" ")));
                Reply::Status { success: sys.packages.contains(&args[1]) }
            }
            other => panic!("unexpected question: {:?}", other),
        },
        Request::Inspect { command } => match command {
            Action::Run { program, args, .. } => {
                sys.log.push(format!("{} {}", program, args.join(" ")));
                Reply::Output {
                    text: " new Debian package, version 2.0.\n Package: r-4.3.1\n Version: 1\n"
                        .to_string(),
                }
            }
            other => panic!("unexpected inspection: {:?}", other),
        },
        Request::ScanRoot => Reply::Root { entries: scan_root(sys) },
        Request::SetDefaultIfNone { version } => {
            if default_is_missing(pointer(sys).as_deref()) {
                set_default(sys, version)
            } else {
                Reply::Done
            }
        }
        Request::UpdateLibraryProfile { version } => {
            sys.log.push(format!("library profile {}", version));
            Reply::Done
        }
        Request::MakeLinks => make_links(sys),
        Request::AddAlias { version, alias } => {
            sys.links.insert(
                format!("/usr/local/bin/R-{}", alias),
                format!("/opt/R/{}/bin/R", version),
            );
            Reply::Done
        }
        Request::SetCloudMirror { version } => {
            let plan = set_cloud_mirror(Some(&vec![version.clone()]), &scan_root(sys));
            finish(sys, &plan.actions, plan.failure)
        }
        Request::SetRspm { version, host } => {
            let plan = set_rspm(Some(&vec![version.clone()]), host, Arch::X86_64, &scan_root(sys));
            finish(sys, &plan.actions, plan.failure)
        }
        Request::SetSysreqs { version, host } => {
            let plan =
                set_sysreqs(Some(&vec![version.clone()]), host, Arch::X86_64, &scan_root(sys));
            finish(sys, &plan.actions, plan.failure)
        }
        Request::AddPak { version, pak_version, reinstall } => {
            sys.log.push(format!("pak {} {} {}", version, pak_version, reinstall));
            Reply::Done
        }
        Request::Stop { .. } => panic!("nothing to answer"),
    }
}

fn run_add(sys: &mut System, opts: &AddOptions) -> Result<(), RigError> {
    let mut state = AddState::new();
    let mut reply = Reply::Begin;
    for _ in 0..100 {
        let (next, request) = sc_add(opts, state, reply);
        state = next;
        if let Request::Stop { failure } = request {
            assert_eq!(state.stage, Stage::Finished);
            return match failure {
                Some(error) => Err(error),
                None => Ok(()),
            };
        }
        reply = answer(sys, &request);
    }
    panic!("the operation does not end");
}

fn run_rm(sys: &mut System, versions: Option<&Vec<String>>) -> Result<(), RigError> {
    let mut state = RmState::Start;
    let mut reply = Reply::Begin;
    for _ in 0..100 {
        let (next, request) = sc_rm(versions, state, reply);
        state = next;
        if let Request::Stop { failure } = request {
            assert_eq!(state, RmState::Finished);
            return match failure {
                Some(error) => Err(error),
                None => Ok(()),
            };
        }
        reply = answer(sys, &request);
    }
    panic!("the operation does not end");
}

fn options(spec: &str) -> AddOptions {
    AddOptions {
        spec: spec.to_string(),
        alias: None,
        without_cran_mirror: false,
        without_rspm: false,
        without_sysreqs: false,
        without_pak: false,
        pak_version: "stable".to_string(),
        pak_version_given: false,
    }
}

#[test]
fn add_on_an_empty_root() {
    let mut sys = empty_system();
    run_add(&mut sys, &options("4.3.1")).unwrap();
    assert_eq!(sc_get_list(&scan_root(&sys)), vec!["4.3.1"]);
    assert_eq!(pointer(&sys), Some("/opt/R/4.3.1".to_string()));
    assert_eq!(sc_get_default(pointer(&sys).as_deref()).unwrap(), Some("4.3.1".to_string()));
    assert_eq!(
        sys.links.get("/usr/local/bin/R-4.3.1"),
        Some(&"/opt/R/4.3.1/bin/R".to_string())
    );
    assert_eq!(resolve(&sys, "/usr/local/bin/R"), "/opt/R/4.3.1/bin/R");
    assert_eq!(resolve(&sys, "/usr/local/bin/Rscript"), "/opt/R/4.3.1/bin/Rscript");
    assert!(is_there(&sys, "/usr/local/bin/R"));
    assert!(is_there(&sys, "/usr/local/bin/Rscript"));
}

#[test]
fn add_does_its_steps_in_order() {
    let mut sys = empty_system();
    let mut opts = options("4.3.1");
    opts.pak_version = "devel".to_string();
    opts.pak_version_given = true;
    run_add(&mut sys, &opts).unwrap();
    assert_eq!(
        sys.log,
        vec![
            "escalate adding new R versions",
            "resolve 4.3.1",
            "fetch https://cdn.rstudio.com/r/ubuntu-2004/pkgs/r-4.3.1_1_amd64.deb",
            "apt-get update",
            "apt install --reinstall -y -o=Dpkg::Use-Pty=0 /tmp/rig/r-4.3.1_1_amd64.deb",
            "dpkg -I /tmp/rig/r-4.3.1_1_amd64.deb",
            "escalate setting the default R version",
            "library profile 4.3.1",
            "escalate making R-* quick links",
            "pak 4.3.1 devel true",
        ]
    );
    let profile = "/opt/R/4.3.1/lib/R/library/base/R/Rprofile".to_string();
    assert_eq!(sys.appended.len(), 3);
    assert!(sys.appended.iter().all(|(path, lines)| *path == profile && lines.len() == 1));
    assert!(sys.appended[0].1[0].contains("cloud.r-project.org"));
    assert!(sys.appended[1].1[0].contains("RSPM=\"https://packagemanager.rstudio.com/all/__linux__/focal/latest\""));
    assert!(sys.appended[2].1[0].contains("PKG_SYSREQS"));
}

#[test]
fn add_leaves_out_what_was_declined() {
    let mut sys = empty_system();
    let mut opts = options("4.3.1");
    opts.without_cran_mirror = true;
    opts.without_rspm = true;
    opts.without_sysreqs = true;
    opts.without_pak = true;
    run_add(&mut sys, &opts).unwrap();
    assert!(sys.appended.is_empty());
    assert!(!sys.log.iter().any(|l| l.starts_with("pak")));
    assert_eq!(sc_get_list(&scan_root(&sys)), vec!["4.3.1"]);
    assert!(sys.links.contains_key("/usr/local/bin/R-4.3.1"));
}

#[test]
fn add_with_an_alias() {
    let mut sys = empty_system();
    let mut opts = options("4.3.1");
    opts.alias = Some("release".to_string());
    run_add(&mut sys, &opts).unwrap();
    let found = find_aliases(&scan_bin(&sys)).unwrap();
    assert_eq!(found.len(), 1);
    assert_eq!(found[0].alias, "release");
    assert_eq!(found[0].version, "4.3.1");
}

#[test]
fn add_keeps_an_existing_default() {
    let mut sys = empty_system();
    sys.versions.insert("4.2.0".to_string());
    assert!(matches!(set_default(&mut sys, "4.2.0"), Reply::Done));
    run_add(&mut sys, &options("4.3.1")).unwrap();
    assert_eq!(sc_get_list(&scan_root(&sys)), vec!["4.2.0", "4.3.1"]);
    assert_eq!(sc_get_default(pointer(&sys).as_deref()).unwrap(), Some("4.2.0".to_string()));
    assert!(sys.links.contains_key("/usr/local/bin/R-4.2.0"));
    assert!(sys.links.contains_key("/usr/local/bin/R-4.3.1"));
}

#[test]
fn add_without_privileges_touches_nothing() {
    let mut sys = empty_system();
    sys.privileged = false;
    assert!(matches!(
        run_add(&mut sys, &options("4.3.1")),
        Err(RigError::InsufficientPrivilege)
    ));
    assert_eq!(sys.log, vec!["escalate adding new R versions"]);
    assert!(sys.versions.is_empty());
    assert!(sys.links.is_empty());
}

#[test]
fn add_without_a_url_fails() {
    let mut sys = empty_system();
    match run_add(&mut sys, &options("nothing")) {
        Err(RigError::DownloadUnresolved { version }) => assert_eq!(version, "???"),
        other => panic!("unexpected: {:?}", other),
    }
    assert!(sys.versions.is_empty());
}

#[test]
fn add_stops_on_a_report_out_of_turn() {
    let opts = options("4.3.1");
    let (state, request) = sc_add(&opts, AddState::new(), Reply::Done);
    assert_eq!(state.stage, Stage::Finished);
    assert!(matches!(request, Request::Stop { failure: Some(RigError::OutOfTurn) }));
    let (state, request) = sc_add(&opts, AddState::new(), Reply::Begin);
    assert_eq!(state.stage, Stage::Escalating);
    assert!(matches!(request, Request::Escalate { .. }));
    let (state, request) = sc_add(&opts, state, Reply::Status { success: true });
    assert_eq!(state.stage, Stage::Finished);
    assert!(matches!(request, Request::Stop { failure: Some(RigError::OutOfTurn) }));
    let (state, request) = sc_add(&opts, state, Reply::Begin);
    assert_eq!(state.stage, Stage::Finished);
    assert!(matches!(request, Request::Stop { failure: Some(RigError::OutOfTurn) }));
}

#[test]
fn add_fails_when_the_package_names_no_version() {
    let opts = options("4.3.1");
    let mut state = AddState::new();
    state.stage = Stage::Inspecting;
    let (state, request) =
        sc_add(&opts, state, Reply::Output { text: "Package: python3\n".to_string() });
    assert_eq!(state.stage, Stage::Finished);
    assert!(matches!(request, Request::Stop { failure: Some(RigError::MetadataParseError) }));
}

#[test]
fn add_needs_a_distribution_with_packages() {
    let opts = options("4.3.1");
    let mut state = AddState::new();
    state.stage = Stage::Fetching;
    state.host.distro = "fedora".to_string();
    state.host.version = "38".to_string();
    let (state, request) = sc_add(&opts, state, Reply::Fetched { path: "/tmp/x".to_string() });
    assert_eq!(state.stage, Stage::Finished);
    match request {
        Request::Stop { failure: Some(RigError::UnsupportedDistro { distro, version }) } => {
            assert_eq!(distro, "fedora");
            assert_eq!(version, "38");
        }
        other => panic!("unexpected: {:?}", other),
    }
}

#[test]
fn set_default_then_commands_lead_to_the_version() {
    let mut sys = empty_system();
    sys.versions.insert("4.2.0".to_string());
    sys.versions.insert("4.3.1".to_string());
    for version in ["4.3.1", "4.2.0", "4.3.1"] {
        assert!(matches!(set_default(&mut sys, version), Reply::Done));
        assert_eq!(
            sc_get_default(pointer(&sys).as_deref()).unwrap(),
            Some(version.to_string())
        );
        assert_eq!(resolve(&sys, "/usr/local/bin/R"), format!("/opt/R/{}/bin/R", version));
        assert_eq!(
            resolve(&sys, "/usr/local/bin/Rscript"),
            format!("/opt/R/{}/bin/Rscript", version)
        );
        assert_eq!(sys.links.get("/usr/local/bin/R"), Some(&"/opt/R/current/bin/R".to_string()));
    }
}

#[test]
fn remove_takes_package_directory_and_link() {
    let mut sys = empty_system();
    run_add(&mut sys, &options("4.3.1")).unwrap();
    sys.log.clear();
    run_rm(&mut sys, Some(&vec!["4.3.1".to_string()])).unwrap();
    assert_eq!(
        sys.log,
        vec![
            "escalate removing R versions",
            "dpkg -s r-4.3.1",
            "apt-get remove -y -o=Dpkg::Use-Pty=0 --purge r-4.3.1",
            "escalate making R-* quick links",
        ]
    );
    assert!(sc_get_list(&scan_root(&sys)).is_empty());
    assert!(!sys.links.contains_key("/usr/local/bin/R-4.3.1"));
    assert!(sys.packages.is_empty());
    assert_eq!(pointer(&sys), Some("/opt/R/4.3.1".to_string()));
}

#[test]
fn remove_of_a_copied_installation() {
    let mut sys = empty_system();
    sys.versions.insert("4.2.0".to_string());
    sys.versions.insert("4.1.0".to_string());
    assert!(matches!(make_links(&mut sys), Reply::Done));
    sys.log.clear();
    run_rm(&mut sys, Some(&vec!["4.2.0".to_string(), "4.1.0".to_string()])).unwrap();
    assert_eq!(
        sys.log,
        vec![
            "escalate removing R versions",
            "dpkg -s r-4.2.0",
            "dpkg -s r-4.1.0",
            "escalate making R-* quick links",
        ]
    );
    assert!(sys.versions.is_empty());
    assert!(sys.links.is_empty());
}

#[test]
fn remove_of_an_unknown_version_fails() {
    let mut sys = empty_system();
    sys.versions.insert("4.2.0".to_string());
    sys.versions.insert("4.1.0".to_string());
    match run_rm(&mut sys, Some(&vec!["4.2.0".to_string(), "4.4.4".to_string(), "4.1.0".to_string()])) {
        Err(RigError::NotInstalled { version }) => assert_eq!(version, "4.4.4"),
        other => panic!("unexpected: {:?}", other),
    }
    assert_eq!(sc_get_list(&scan_root(&sys)), vec!["4.1.0"]);
}

#[test]
fn remove_without_versions_only_asks_for_privileges() {
    let mut sys = empty_system();
    sys.versions.insert("4.2.0".to_string());
    run_rm(&mut sys, None).unwrap();
    assert_eq!(sys.log, vec!["escalate removing R versions"]);
    assert!(sys.links.is_empty());
    run_rm(&mut sys, Some(&Vec::new())).unwrap();
    assert!(sys.links.contains_key("/usr/local/bin/R-4.2.0"));
}

#[test]
fn remove_without_privileges_touches_nothing() {
    let mut sys = empty_system();
    sys.versions.insert("4.2.0".to_string());
    sys.privileged = false;
    assert!(matches!(
        run_rm(&mut sys, Some(&vec!["4.2.0".to_string()])),
        Err(RigError::InsufficientPrivilege)
    ));
    assert_eq!(sc_get_list(&scan_root(&sys)), vec!["4.2.0"]);
}

#[test]
fn remove_stops_on_a_report_out_of_turn() {
    let versions = vec!["4.2.0".to_string()];
    let (state, request) = sc_rm(Some(&versions), RmState::Start, Reply::Done);
    assert_eq!(state, RmState::Finished);
    assert!(matches!(request, Request::Stop { failure: Some(RigError::OutOfTurn) }));
    let (state, request) =
        sc_rm(Some(&versions), RmState::Scanning { next: 0 }, Reply::Status { success: true });
    assert_eq!(state, RmState::Finished);
    assert!(matches!(request, Request::Stop { failure: Some(RigError::OutOfTurn) }));
    let (state, request) =
        sc_rm(Some(&versions), RmState::Asking { next: 7 }, Reply::Status { success: true });
    assert_eq!(state, RmState::Finished);
    assert!(matches!(request, Request::Stop { failure: Some(RigError::OutOfTurn) }));
    let (state, request) = sc_rm(
        Some(&versions),
        RmState::Removing { next: 0 },
        Reply::Failed { error: RigError::FilesystemError { path: "/opt/R/4.2.0".to_string() } },
    );
    assert_eq!(state, RmState::Finished);
    assert!(matches!(request, Request::Stop { failure: Some(RigError::FilesystemError { .. }) }));
}

#[test]
fn set_default_over_a_dangling_pointer() {
    let mut sys = empty_system();
    sys.versions.insert("4.2.0".to_string());
    sys.versions.insert("4.3.1".to_string());
    assert!(matches!(set_default(&mut sys, "4.2.0"), Reply::Done));
    sys.versions.remove("4.2.0");
    assert!(!is_there(&sys, "/opt/R/current"));
    assert!(!is_there(&sys, "/usr/local/bin/R"));
    assert!(matches!(set_default(&mut sys, "4.3.1"), Reply::Done));
    assert_eq!(pointer(&sys), Some("/opt/R/4.3.1".to_string()));
    assert_eq!(resolve(&sys, "/usr/local/bin/R"), "/opt/R/4.3.1/bin/R");
    assert_eq!(resolve(&sys, "/usr/local/bin/Rscript"), "/opt/R/4.3.1/bin/Rscript");
}

#[test]
fn rebuild_over_a_dangling_link_of_an_installed_version_succeeds() {
    let mut sys = empty_system();
    sys.versions.insert("4.3.1".to_string());
    sys.links.insert("/usr/local/bin/R-4.3.1".to_string(), "/gone/bin/R".to_string());
    assert!(matches!(make_links(&mut sys), Reply::Done));
    assert!(!sys.links.contains_key("/usr/local/bin/R-4.3.1"));
    assert!(matches!(make_links(&mut sys), Reply::Done));
    assert_eq!(
        sys.links.get("/usr/local/bin/R-4.3.1"),
        Some(&"/opt/R/4.3.1/bin/R".to_string())
    );
}
