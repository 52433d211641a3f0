use rig_linux::system::check_has_pak;
use rig_linux::system::sc_clean_registry;
use rig_linux::system::sc_system_allow_core_dumps;
use rig_linux::system::sc_system_allow_debugger;
use rig_linux::system::sc_system_allow_debugger_rstudio;
use rig_linux::system::sc_system_fix_permissions;
use rig_linux::system::sc_system_forget;
use rig_linux::system::sc_system_make_orthogonal;
use rig_linux::system::sc_system_no_openmp;
use rig_linux::system::sc_system_update_rtools40;

#[test]
fn system_commands_do_nothing_and_succeed() {
    let args = clap::Command::new("rig").get_matches_from(vec!["rig"]);
    assert!(sc_system_allow_core_dumps(&args).is_ok());
    assert!(sc_system_allow_debugger(&args).is_ok());
    assert!(sc_system_allow_debugger_rstudio(&args).is_ok());
    assert!(sc_system_make_orthogonal(&args).is_ok());
    assert!(sc_system_fix_permissions(&args).is_ok());
    assert!(sc_system_no_openmp(&args).is_ok());
    assert!(sc_system_forget().is_ok());
    assert!(sc_clean_registry().is_ok());
    assert!(sc_system_update_rtools40().is_ok());
}

#[test]
fn every_version_may_have_pak() {
    assert!(check_has_pak("4.3.1").is_ok());
    assert!(check_has_pak("").is_ok());
}
