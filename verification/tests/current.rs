use rig_linux::action::Action;
use rig_linux::current::default_is_missing;
use rig_linux::current::sc_get_default;
use rig_linux::current::sc_set_default;
use rig_linux::error::RigError;
use rig_linux::registry::RootEntry;

fn version(name: &str) -> RootEntry {
    RootEntry { name: name.to_string(), has_binary: true, has_profile: true }
}

#[test]
fn set_default_makes_pointer_and_commands() {
    let root = vec![version("4.2.0"), version("4.3.1")];
    let plan = sc_set_default("4.3.1", &root).unwrap();
    let shown: Vec<String> = plan
        .iter()
        .map(|a| match a {
            Action::Escalate { task } => format!("escalate {}", task),
            Action::RemoveIfExists { path } => format!("rm {}", path),
            Action::Symlink { target, link } => format!("ln {} {}", target, link),
            other => format!("{:?}", other),
        })
        .collect();
    assert_eq!(
        shown,
        vec![
            "escalate setting the default R version",
            "rm /opt/R/current",
            "ln /opt/R/4.3.1 /opt/R/current",
            "rm /usr/local/bin/R",
            "ln /opt/R/current/bin/R /usr/local/bin/R",
            "rm /usr/local/bin/Rscript",
            "ln /opt/R/current/bin/Rscript /usr/local/bin/Rscript",
        ]
    );
}

#[test]
fn set_default_needs_an_installed_version() {
    let root = vec![version("4.2.0"), RootEntry {
        name: "4.3.1".to_string(),
        has_binary: false,
        has_profile: false,
    }];
    for name in ["4.3.1", "4.4.0", "current", ""] {
        match sc_set_default(name, &root) {
            Err(RigError::NotInstalled { version }) => assert_eq!(version, name),
            other => panic!("unexpected: {:?}", other),
        }
    }
}

#[test]
fn get_default_reads_the_pointer() {
    assert_eq!(sc_get_default(Some("/opt/R/4.3.1")).unwrap(), Some("4.3.1".to_string()));
    assert_eq!(sc_get_default(Some("/opt/R/devel/")).unwrap(), Some("devel".to_string()));
    assert_eq!(sc_get_default(Some("4.2.0")).unwrap(), Some("4.2.0".to_string()));
    assert_eq!(sc_get_default(None).unwrap(), None);
    assert_eq!(sc_get_default(Some("/opt/R/..")).unwrap(), None);
}

#[test]
fn default_is_missing_without_a_pointer() {
    assert!(default_is_missing(None));
    assert!(default_is_missing(Some("/")));
    assert!(!default_is_missing(Some("/opt/R/4.3.1")));
}

#[test]
fn set_default_then_get_default() {
    let root = vec![version("4.2.0"), version("4.3.1"), version("devel")];
    for name in ["4.2.0", "4.3.1", "devel"] {
        let plan = sc_set_default(name, &root).unwrap();
        let mut pointer: Option<String> = None;
        for action in &plan {
            match action {
                Action::Symlink { target, link } if link == "/opt/R/current" => {
                    pointer = Some(target.clone())
                }
                Action::RemoveIfExists { path } if path == "/opt/R/current" => pointer = None,
                _ => {}
            }
        }
        assert_eq!(sc_get_default(pointer.as_deref()).unwrap(), Some(name.to_string()));
    }
}
