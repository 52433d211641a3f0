use rig_linux::paths::get_r_binary;
use rig_linux::paths::get_system_profile;
use rig_linux::paths::get_system_renviron;
use rig_linux::paths::get_version_dir;
use rig_linux::paths::join;
use rig_linux::paths::path_components;
use rig_linux::paths::path_file_name;
use rig_linux::paths::version_from_link;
use rig_linux::paths::R_BINPATH;
use rig_linux::paths::R_CUR;
use rig_linux::paths::R_ROOT;
use rig_linux::paths::R_SYSLIBPATH;
use rig_linux::paths::R_VERSIONDIR;
use std::path::Path;
use std::path::PathBuf;

#[test]
fn fixed_places() {
    assert_eq!(R_ROOT, "/opt/R");
    assert_eq!(R_VERSIONDIR, "{}");
    assert_eq!(R_SYSLIBPATH, "{}/lib/R/library");
    assert_eq!(R_BINPATH, "{}/bin/R");
    assert_eq!(R_CUR, "/opt/R/current");
}

#[test]
fn join_puts_a_separator_between() {
    assert_eq!(join("/opt/R", "4.3.1"), "/opt/R/4.3.1");
    assert_eq!(join("/opt/R/", "4.3.1"), "/opt/R/4.3.1");
    assert_eq!(join("", "4.3.1"), "4.3.1");
    assert_eq!(join("/opt/R", ""), "/opt/R/");
    assert_eq!(join("/opt/R", "/usr/lib/R"), "/usr/lib/R");
    assert_eq!(join("/usr/local/bin", "R-4.3.1"), "/usr/local/bin/R-4.3.1");
}

#[test]
fn join_agrees_with_std() {
    let parts = ["", "/", "a", "a/", "/a", "a/b", "/opt/R", "bin/R", ".", "..", "é", "//x"];
    for base in parts {
        for rel in parts {
            let expected = Path::new(base).join(rel);
            assert_eq!(
                PathBuf::from(join(base, rel)),
                expected,
                "joining {:?} and {:?}",
                base,
                rel
            );
            assert_eq!(join(base, rel), expected.to_str().unwrap());
        }
    }
}

#[test]
fn paths_of_a_version() {
    assert_eq!(get_version_dir("4.3.1"), "/opt/R/4.3.1");
    assert_eq!(get_r_binary("4.3.1").unwrap(), "/opt/R/4.3.1/bin/R");
    assert_eq!(get_system_renviron("4.3.1").unwrap(), "/opt/R/4.3.1/lib/R/etc/Renviron");
    assert_eq!(
        get_system_profile("4.3.1").unwrap(),
        "/opt/R/4.3.1/lib/R/library/base/R/Rprofile"
    );
    assert_eq!(get_r_binary("devel").unwrap(), "/opt/R/devel/bin/R");
}

#[test]
fn components_skip_what_does_not_count() {
    assert_eq!(path_components("/opt/R/4.3.1/bin/R"), vec!["opt", "R", "4.3.1", "bin", "R"]);
    assert_eq!(path_components("a//b/./c/"), vec!["a", "b", "c"]);
    assert_eq!(path_components("./a"), vec![".", "a"]);
    assert_eq!(path_components("/./a"), vec!["a"]);
    assert_eq!(path_components("../a/.."), vec!["..", "a", ".."]);
    assert_eq!(path_components(""), Vec::<String>::new());
    assert_eq!(path_components("/"), Vec::<String>::new());
}

#[test]
fn file_name_is_the_last_name() {
    assert_eq!(path_file_name("/opt/R/4.3.1"), Some("4.3.1".to_string()));
    assert_eq!(path_file_name("/opt/R/4.3.1/"), Some("4.3.1".to_string()));
    assert_eq!(path_file_name("4.3.1"), Some("4.3.1".to_string()));
    assert_eq!(path_file_name("/opt/R/.."), None);
    assert_eq!(path_file_name("/"), None);
    assert_eq!(path_file_name(""), None);
    assert_eq!(path_file_name("."), None);
}

#[test]
fn version_from_link_is_two_levels_up() {
    assert_eq!(version_from_link("/opt/R/4.3.1/bin/R"), Some("4.3.1".to_string()));
    assert_eq!(version_from_link("/opt/R/devel/bin/R"), Some("devel".to_string()));
    assert_eq!(version_from_link("/opt/R/4.3.1/bin/Rscript"), Some("4.3.1".to_string()));
    assert_eq!(version_from_link("/opt/R/4.3.1//bin/R/"), Some("4.3.1".to_string()));
    assert_eq!(version_from_link("/bin/R"), None);
    assert_eq!(version_from_link("bin/R"), None);
    assert_eq!(version_from_link("R"), None);
    assert_eq!(version_from_link(""), None);
    assert_eq!(version_from_link("/opt/../bin/R"), None);
    assert_eq!(version_from_link("./bin/R"), None);
}

#[test]
fn path_functions_agree_with_std() {
    let samples = [
        "",
        "/",
        ".",
        "..",
        "a",
        "a/",
        "/a",
        "a/b",
        "a/b/c",
        "/a/b/c",
        "/opt/R/4.3.1/bin/R",
        "/opt/R/4.3.1/bin/R/",
        "/opt/R//4.3.1/./bin/R",
        "./a/b",
        "./bin/R",
        "../x/bin/R",
        "/x/../bin/R",
        "a/b/..",
        "a/../b/c",
        "x/./y/z",
        "/./a/b/c",
        "a/b/.",
        "é/bin/R",
        "//a//b//c//",
    ];
    for path in samples {
        let std_name = Path::new(path).file_name().map(|n| n.to_str().unwrap().to_string());
        assert_eq!(path_file_name(path), std_name, "file name of {:?}", path);
        let std_version = Path::new(path)
            .parent()
            .and_then(|x| x.parent())
            .and_then(|x| x.file_name())
            .map(|n| n.to_str().unwrap().to_string());
        assert_eq!(version_from_link(path), std_version, "version of {:?}", path);
    }
}
