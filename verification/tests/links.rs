use rig_linux::action::Action;
use rig_linux::error::RigError;
use rig_linux::links::is_quick_link_name;
use rig_linux::links::link_cleanup;
use rig_linux::links::link_creation;
use rig_linux::links::link_creations;
use rig_linux::links::sc_system_make_links;
use rig_linux::links::LinkEntry;
use rig_linux::registry::RootEntry;

fn version(name: &str) -> RootEntry {
    RootEntry { name: name.to_string(), has_binary: true, has_profile: true }
}

fn link(name: &str, target: &str, target_exists: bool) -> LinkEntry {
    LinkEntry { name: name.to_string(), target: Some(target.to_string()), target_exists }
}

fn file(name: &str) -> LinkEntry {
    LinkEntry { name: name.to_string(), target: None, target_exists: false }
}

fn shown(plan: &Vec<Action>) -> Vec<String> {
    plan.iter()
        .map(|a| match a {
            Action::Escalate { task } => format!("escalate {}", task),
            Action::Symlink { target, link } => format!("link {} -> {}", link, target),
            Action::RemoveDangling { path } => format!("remove {}", path),
            Action::WarnNotLink { path } => format!("warn {}", path),
            other => format!("{:?}", other),
        })
        .collect()
}

fn carry_out(dir: Vec<LinkEntry>, plan: &Vec<Action>) -> Vec<LinkEntry> {
    let mut dir = dir;
    for action in plan {
        match action {
            Action::Symlink { target, link } => {
                let name = link.strip_prefix("/usr/local/bin/").unwrap().to_string();
                assert!(dir.iter().all(|e| e.name != name), "link exists: {}", name);
                dir.push(LinkEntry { name, target: Some(target.clone()), target_exists: true });
            }
            Action::RemoveDangling { path } => {
                let name = path.strip_prefix("/usr/local/bin/").unwrap().to_string();
                dir.retain(|e| e.name != name);
            }
            Action::WarnNotLink { .. } => {}
            Action::Escalate { .. } => {}
            other => panic!("unexpected step: {:?}", other),
        }
    }
    dir
}

fn names(dir: &Vec<LinkEntry>) -> Vec<String> {
    let mut names: Vec<String> = dir.iter().map(|e| e.name.clone()).collect();
    names.sort();
    names
}

#[test]
fn quick_link_names() {
    for name in ["R-4.3.1", "R-3.6.3", "R-10.20.30", "R-oldrel", "R-next", "R-release", "R-devel"] {
        assert_eq!(is_quick_link_name(name).unwrap(), true, "{}", name);
    }
    for name in
        ["R", "Rscript", "R-4.3", "R-4.3.1.2", "R-4.3.x", "r-4.3.1", "R-4.3.1 ", "xR-4.3.1", "R-", "R-rel", "R-4-3-1", "R-٤.٣.١"]
    {
        assert_eq!(is_quick_link_name(name).unwrap(), false, "{}", name);
    }
}

#[test]
fn creation_of_a_missing_link() {
    match link_creation("4.3.1", &Vec::new()) {
        Some(Action::Symlink { target, link }) => {
            assert_eq!(target, "/opt/R/4.3.1/bin/R");
            assert_eq!(link, "/usr/local/bin/R-4.3.1");
        }
        other => panic!("unexpected: {:?}", other),
    }
}

#[test]
fn no_creation_where_something_exists() {
    let dir = vec![link("R-4.3.1", "/somewhere/else", true), file("R-4.2.0")];
    assert!(link_creation("4.3.1", &dir).is_none());
    assert!(link_creation("4.2.0", &dir).is_none());
    assert!(link_creation("4.1.0", &dir).is_some());
}

#[test]
fn no_creation_over_a_dangling_link() {
    let dir = vec![link("R-4.3.1", "/opt/R/4.3.1/bin/R", false)];
    assert!(link_creation("4.3.1", &dir).is_none());
    assert!(link_creations(&vec!["4.3.1".to_string()], &dir).is_empty());
}

#[test]
fn dangling_link_of_an_installed_version_is_collected_then_made_anew() {
    let root = vec![version("4.3.1")];
    let dir = vec![link("R-4.3.1", "/gone/bin/R", false)];
    let first = sc_system_make_links(&root, &dir);
    assert!(first.failure.is_none());
    assert_eq!(
        shown(&first.actions),
        vec!["escalate making R-* quick links", "remove /usr/local/bin/R-4.3.1"]
    );
    let after = carry_out(dir, &first.actions);
    assert!(after.is_empty());
    let second = sc_system_make_links(&root, &after);
    assert_eq!(
        shown(&second.actions),
        vec![
            "escalate making R-* quick links",
            "link /usr/local/bin/R-4.3.1 -> /opt/R/4.3.1/bin/R",
        ]
    );
    let healed = carry_out(after, &second.actions);
    let third = sc_system_make_links(&root, &healed);
    assert_eq!(shown(&third.actions), vec!["escalate making R-* quick links"]);
}

#[test]
fn creations_follow_the_versions() {
    let versions = vec!["4.1.0".to_string(), "4.2.0".to_string(), "4.3.1".to_string()];
    let dir = vec![link("R-4.2.0", "/opt/R/4.2.0/bin/R", true)];
    assert_eq!(
        shown(&link_creations(&versions, &dir)),
        vec![
            "link /usr/local/bin/R-4.1.0 -> /opt/R/4.1.0/bin/R",
            "link /usr/local/bin/R-4.3.1 -> /opt/R/4.3.1/bin/R",
        ]
    );
}

#[test]
fn cleanup_of_one_entry() {
    assert!(link_cleanup(&link("R-4.3.1", "/opt/R/4.3.1/bin/R", true), true).is_none());
    assert!(link_cleanup(&link("R-4.3.1", "/opt/R/4.3.1/bin/R", false), false).is_none());
    assert!(link_cleanup(&file("R-4.3.1"), false).is_none());
    match link_cleanup(&link("R-4.3.1", "/opt/R/4.3.1/bin/R", false), true) {
        Some(Action::RemoveDangling { path }) => assert_eq!(path, "/usr/local/bin/R-4.3.1"),
        other => panic!("unexpected: {:?}", other),
    }
    match link_cleanup(&file("R-4.3.1"), true) {
        Some(Action::WarnNotLink { path }) => assert_eq!(path, "/usr/local/bin/R-4.3.1"),
        other => panic!("unexpected: {:?}", other),
    }
}

#[test]
fn rebuild_adds_and_removes() {
    let root = vec![version("4.3.1"), version("4.2.0"), version("current")];
    let dir = vec![
        link("R", "/opt/R/current/bin/R", true),
        link("R-4.1.0", "/opt/R/4.1.0/bin/R", false),
        link("R-4.2.0", "/opt/R/4.2.0/bin/R", true),
        link("R-release", "/opt/R/4.0.0/bin/R", false),
        link("python", "/nowhere", false),
        file("R-devel"),
        file("ls"),
    ];
    let plan = sc_system_make_links(&root, &dir);
    assert!(plan.failure.is_none());
    assert_eq!(
        shown(&plan.actions),
        vec![
            "escalate making R-* quick links",
            "link /usr/local/bin/R-4.3.1 -> /opt/R/4.3.1/bin/R",
            "remove /usr/local/bin/R-4.1.0",
            "remove /usr/local/bin/R-release",
            "warn /usr/local/bin/R-devel",
        ]
    );
}

#[test]
fn rebuild_twice_changes_nothing_more() {
    let root = vec![version("4.3.1"), version("4.2.0"), version("devel")];
    let dir = vec![
        link("R-4.1.0", "/opt/R/4.1.0/bin/R", false),
        link("R-4.2.0", "/elsewhere/R", true),
        link("R-oldrel", "/opt/R/4.2.0/bin/R", true),
        link("Rscript", "/opt/R/current/bin/Rscript", false),
    ];
    let first = sc_system_make_links(&root, &dir);
    assert!(first.failure.is_none());
    assert_eq!(first.actions.len(), 4);
    let after = carry_out(dir, &first.actions);
    assert_eq!(names(&after), vec!["R-4.2.0", "R-4.3.1", "R-devel", "R-oldrel", "Rscript"]);
    let second = sc_system_make_links(&root, &after);
    assert!(second.failure.is_none());
    assert_eq!(shown(&second.actions), vec!["escalate making R-* quick links"]);
    let again = carry_out(after, &second.actions);
    assert_eq!(names(&again), vec!["R-4.2.0", "R-4.3.1", "R-devel", "R-oldrel", "Rscript"]);
    assert_eq!(again.iter().find(|e| e.name == "R-4.2.0").unwrap().target.as_deref(), Some("/elsewhere/R"));
}

#[test]
fn rebuild_warns_each_time_about_a_file() {
    let root = vec![version("4.3.1")];
    let dir = vec![file("R-4.3.1"), file("R-next")];
    let first = sc_system_make_links(&root, &dir);
    assert_eq!(
        shown(&first.actions),
        vec![
            "escalate making R-* quick links",
            "warn /usr/local/bin/R-4.3.1",
            "warn /usr/local/bin/R-next",
        ]
    );
    let after = carry_out(dir, &first.actions);
    let second = sc_system_make_links(&root, &after);
    assert_eq!(shown(&second.actions), shown(&first.actions));
}

#[test]
fn dangling_link_goes_and_live_link_stays() {
    let root = vec![version("4.3.1")];
    let mut dir =
        vec![link("R-4.3.1", "/opt/R/4.3.1/bin/R", true), link("R-4.2.0", "/opt/R/4.2.0/bin/R", false)];
    for _ in 0..4 {
        let plan = sc_system_make_links(&root, &dir);
        assert!(plan.failure.is_none());
        dir = carry_out(dir, &plan.actions);
        assert_eq!(names(&dir), vec!["R-4.3.1"]);
    }
}

#[test]
fn rebuild_on_an_empty_system_does_nothing() {
    let plan = sc_system_make_links(&Vec::new(), &Vec::new());
    assert!(plan.failure.is_none());
    assert_eq!(shown(&plan.actions), vec!["escalate making R-* quick links"]);
    assert!(!matches!(plan.failure, Some(RigError::BadPattern)));
}
