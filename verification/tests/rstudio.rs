use rig_linux::error::RigError;
use rig_linux::registry::RootEntry;
use rig_linux::rstudio::sc_rstudio_;

fn root() -> Vec<RootEntry> {
    vec![RootEntry { name: "4.3.1".to_string(), has_binary: true, has_profile: true }]
}

#[test]
fn rstudio_alone() {
    let launch = sc_rstudio_(None, None, None, &root()).unwrap();
    assert_eq!(launch.program, "rstudio");
    assert_eq!(launch.args, Vec::<String>::new());
    assert_eq!(launch.env_name, "dummy");
    assert_eq!(launch.env_value, "");
}

#[test]
fn rstudio_with_a_version() {
    let launch = sc_rstudio_(Some("4.3.1"), None, Some("analysis.R"), &root()).unwrap();
    assert_eq!(launch.program, "rstudio");
    assert_eq!(launch.args, vec!["analysis.R"]);
    assert_eq!(launch.env_name, "RSTUDIO_WHICH_R");
    assert_eq!(launch.env_value, "/opt/R/4.3.1/bin/R");
}

#[test]
fn rstudio_with_a_project() {
    let launch = sc_rstudio_(Some("4.3.1"), Some("work.Rproj"), Some("."), &root()).unwrap();
    assert_eq!(launch.program, "xdg-open");
    assert_eq!(launch.args, vec!["work.Rproj", "."]);
    assert_eq!(launch.env_name, "RSTUDIO_WHICH_R");
    assert_eq!(launch.env_value, "/opt/R/4.3.1/bin/R");
}

#[test]
fn rstudio_needs_an_installed_version() {
    match sc_rstudio_(Some("4.0.0"), Some("work.Rproj"), None, &root()) {
        Err(RigError::NotInstalled { version }) => assert_eq!(version, "4.0.0"),
        other => panic!("unexpected: {:?}", other),
    }
}
