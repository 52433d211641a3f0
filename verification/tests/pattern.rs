use rig_linux::error::RigError;
use rig_linux::pattern::find_line;
use rig_linux::pattern::is_match;
use rig_linux::pattern::replace;

#[test]
fn is_match_asks_the_pattern() {
    assert_eq!(is_match("^ID=", "ID=ubuntu").unwrap(), true);
    assert_eq!(is_match("^ID=", "VERSION_ID=20.04").unwrap(), false);
    assert_eq!(is_match("ID=", "VERSION_ID=20.04").unwrap(), true);
    assert_eq!(is_match("[.][0-9]+$", "10.13").unwrap(), true);
    assert_eq!(is_match("[.][0-9]+$", "bookworm/sid").unwrap(), false);
}

#[test]
fn is_match_rejects_a_bad_pattern() {
    assert!(matches!(is_match("(", "anything"), Err(RigError::BadPattern)));
}

#[test]
fn replace_changes_the_first_match_only() {
    assert_eq!(replace("^ID=", "ID=ID=x", "").unwrap(), "ID=x");
    assert_eq!(replace("[.][0-9]+$", "10.13", "").unwrap(), "10");
    assert_eq!(replace("[.][0-9]+$", "11", "").unwrap(), "11");
    assert_eq!(replace("a", "banana", "o").unwrap(), "bonana");
}

#[test]
fn replace_expands_groups() {
    assert_eq!(replace("^[ ]*Package: r-(.*)$", " Package: r-4.3.1", "${1}").unwrap(), "4.3.1");
    assert_eq!(replace("(a)(b)", "xaby", "${2}${1}").unwrap(), "xbay");
}

#[test]
fn replace_rejects_a_bad_pattern() {
    assert!(matches!(replace("[", "anything", ""), Err(RigError::BadPattern)));
}

#[test]
fn find_line_gives_the_first_match() {
    let lines: Vec<String> =
        ["NAME=x", "ID=a", "ID=b"].iter().map(|l| l.to_string()).collect();
    assert_eq!(find_line("^ID=", &lines).unwrap(), Some(1));
    assert_eq!(find_line("^NAME=", &lines).unwrap(), Some(0));
    assert_eq!(find_line("^VERSION_ID=", &lines).unwrap(), None);
    assert_eq!(find_line("^ID=", &Vec::new()).unwrap(), None);
    assert!(matches!(find_line("(", &lines), Err(RigError::BadPattern)));
}
