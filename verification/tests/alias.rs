use rig_linux::alias::entry_alias;
use rig_linux::alias::find_aliases;
use rig_linux::alias::is_alias_name;
use rig_linux::alias::re_alias;
use rig_linux::links::LinkEntry;

fn link(name: &str, target: &str, target_exists: bool) -> LinkEntry {
    LinkEntry { name: name.to_string(), target: Some(target.to_string()), target_exists }
}

#[test]
fn alias_pattern() {
    assert_eq!(re_alias(), "^R-(release|oldrel)$");
    assert!(regex::Regex::new(re_alias()).is_ok());
}

#[test]
fn alias_names() {
    assert_eq!(is_alias_name("R-release").unwrap(), true);
    assert_eq!(is_alias_name("R-oldrel").unwrap(), true);
    for name in ["R-devel", "R-next", "R-4.3.1", "R-release2", "xR-release", "release", "R-"] {
        assert_eq!(is_alias_name(name).unwrap(), false, "{}", name);
    }
}

#[test]
fn release_alias_of_a_version() {
    let dir = vec![link("R-release", "/opt/R/4.3.1/bin/R", true)];
    let found = find_aliases(&dir).unwrap();
    assert_eq!(found.len(), 1);
    assert_eq!(found[0].alias, "release");
    assert_eq!(found[0].version, "4.3.1");
}

#[test]
fn only_live_alias_links_count() {
    let dir = vec![
        link("R-4.3.1", "/opt/R/4.3.1/bin/R", true),
        link("R-oldrel", "/opt/R/4.2.3/bin/R", true),
        link("R-release", "/opt/R/4.3.1/bin/R", false),
        LinkEntry { name: "R-release".to_string(), target: None, target_exists: true },
        link("R-devel", "/opt/R/devel/bin/R", true),
        link("R-release", "/bin/R", true),
        link("R-release", "/opt/R/4.3.2/bin/R", true),
    ];
    let found = find_aliases(&dir).unwrap();
    let shown: Vec<String> =
        found.iter().map(|a| format!("{}={}", a.alias, a.version)).collect();
    assert_eq!(shown, vec!["oldrel=4.2.3", "release=4.3.2"]);
}

#[test]
fn no_aliases_in_an_empty_directory() {
    assert!(find_aliases(&Vec::new()).unwrap().is_empty());
}

#[test]
fn entry_alias_takes_the_verdict_as_given() {
    let entry = link("R-release", "/opt/R/4.3.1/bin/R", true);
    assert!(entry_alias(&entry, false).is_none());
    let alias = entry_alias(&entry, true).unwrap();
    assert_eq!(alias.alias, "release");
    assert_eq!(alias.version, "4.3.1");
    let short = entry_alias(&link("R", "/opt/R/4.3.1/bin/R", true), true).unwrap();
    assert_eq!(short.alias, "");
    assert_eq!(short.version, "4.3.1");
}
