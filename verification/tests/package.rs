use rig_linux::action::Action;
use rig_linux::error::RigError;
use rig_linux::package::add_deb;
use rig_linux::package::described_version_of;
use rig_linux::package::get_install_dir_deb;
use rig_linux::package::get_package_name;
use rig_linux::package::inspect_command;
use rig_linux::package::purge_command;
use rig_linux::package::status_command;
use rig_linux::package::installed_version;

fn run(action: &Action) -> (String, Vec<String>, String) {
    match action {
        Action::Run { program, args, what } => (program.clone(), args.clone(), what.clone()),
        other => panic!("not a command: {:?}", other),
    }
}

#[test]
fn package_name_has_the_prefix() {
    assert_eq!(get_package_name("4.3.1"), "r-4.3.1");
    assert_eq!(get_package_name(""), "r-");
}

#[test]
fn version_is_read_from_the_description() {
    let description = " new Debian package, version 2.0.\n size 60000000 bytes: control archive=50000 bytes.\n Package: r-4.3.1\n Version: 1\n License: GPL-2\n Architecture: amd64\n Depends: ca-certificates, curl\n Description: GNU R statistical computation and graphics system\n";
    assert_eq!(get_install_dir_deb(description).unwrap(), "4.3.1");
}

#[test]
fn first_package_line_decides() {
    assert_eq!(get_install_dir_deb("Package: r-devel\r\nPackage: r-4.2.0\r\n").unwrap(), "devel");
    assert_eq!(get_install_dir_deb("   Package: r-4.1.3").unwrap(), "4.1.3");
    assert_eq!(get_install_dir_deb("Package: r-").unwrap(), "");
}

#[test]
fn description_without_package_line_fails() {
    for description in ["", "Package: python3\n", "Source: r-4.3.1\n", "\tPackage: r-4.3.1\n"] {
        assert!(
            matches!(get_install_dir_deb(description), Err(RigError::MetadataParseError)),
            "for {:?}",
            description
        );
    }
    assert!(matches!(described_version_of(&Vec::new()), Err(RigError::MetadataParseError)));
}

#[test]
fn described_version_of_lines() {
    let lines = vec![" Version: 1".to_string(), " Package: r-next".to_string()];
    assert_eq!(described_version_of(&lines).unwrap(), "next");
}

#[test]
fn installation_refreshes_then_installs() {
    let plan = add_deb("/tmp/rig/r-4.3.1_1_amd64.deb");
    assert_eq!(plan.len(), 2);
    let (program, args, what) = run(&plan[0]);
    assert_eq!(program, "apt-get");
    assert_eq!(args, vec!["update"]);
    assert_eq!(what, "apt-get update");
    let (program, args, what) = run(&plan[1]);
    assert_eq!(program, "apt");
    assert_eq!(
        args,
        vec!["install", "--reinstall", "-y", "-o=Dpkg::Use-Pty=0", "/tmp/rig/r-4.3.1_1_amd64.deb"]
    );
    assert_eq!(what, "apt install");
}

#[test]
fn inspection_and_status_and_purge_commands() {
    let (program, args, what) = run(&inspect_command("/tmp/rig/x.deb"));
    assert_eq!(program, "dpkg");
    assert_eq!(args, vec!["-I", "/tmp/rig/x.deb"]);
    assert_eq!(what, "dpkg -I");
    let (program, args, what) = run(&status_command("r-4.3.1"));
    assert_eq!(program, "dpkg");
    assert_eq!(args, vec!["-s", "r-4.3.1"]);
    assert_eq!(what, "dpkg -s");
    let (program, args, what) = run(&purge_command("r-4.3.1"));
    assert_eq!(program, "apt-get");
    assert_eq!(args, vec!["remove", "-y", "-o=Dpkg::Use-Pty=0", "--purge", "r-4.3.1"]);
    assert_eq!(what, "apt-get remove");
}

#[test]
fn installed_version_needs_a_name() {
    assert_eq!(installed_version(Some("4.3.1".to_string())).unwrap(), "4.3.1");
    assert!(matches!(installed_version(None), Err(RigError::MetadataParseError)));
}
