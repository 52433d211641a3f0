use rig_linux::text::chars_of;
use rig_linux::text::concat2;
use rig_linux::text::concat3;
use rig_linux::text::copy_texts;
use rig_linux::text::split_text;
use rig_linux::text::text_eq;
use rig_linux::text::text_lines;
use rig_linux::text::text_lt;

#[test]
fn chars_of_gives_every_character() {
    assert_eq!(chars_of("R-4.3.1"), vec!['R', '-', '4', '.', '3', '.', '1']);
    assert_eq!(chars_of(""), Vec::<char>::new());
    assert_eq!(chars_of("né"), vec!['n', 'é']);
}

#[test]
fn text_eq_compares_characters() {
    assert!(text_eq("current", "current"));
    assert!(!text_eq("current", "Current"));
    assert!(!text_eq("current", "current "));
    assert!(text_eq("", ""));
}

#[test]
fn concat_puts_texts_together() {
    assert_eq!(concat2("R-", "4.3.1"), "R-4.3.1");
    assert_eq!(concat2("", ""), "");
    assert_eq!(concat3("/opt/R", "/", "4.3.1"), "/opt/R/4.3.1");
}

#[test]
fn copy_texts_copies() {
    let list = vec!["a".to_string(), "".to_string(), "bc".to_string()];
    assert_eq!(copy_texts(&list), list);
    assert_eq!(copy_texts(&Vec::new()), Vec::<String>::new());
}

#[test]
fn split_text_has_one_piece_more_than_separators() {
    assert_eq!(split_text("", '/'), vec![""]);
    assert_eq!(split_text("abc", '/'), vec!["abc"]);
    assert_eq!(split_text("/", '/'), vec!["", ""]);
    assert_eq!(split_text("/opt/R/4.3.1", '/'), vec!["", "opt", "R", "4.3.1"]);
    assert_eq!(split_text("a//b/", '/'), vec!["a", "", "b", ""]);
}

#[test]
fn split_text_agrees_with_std() {
    for text in ["", "/", "a", "a/b", "//", "/a/b/", "x/é/y", "https://host/path/file.deb"] {
        let expected: Vec<String> = text.split('/').map(|p| p.to_string()).collect();
        assert_eq!(split_text(text, '/'), expected, "splitting {:?}", text);
    }
}

#[test]
fn text_lines_drops_line_ends() {
    assert_eq!(text_lines(""), Vec::<String>::new());
    assert_eq!(text_lines("a"), vec!["a"]);
    assert_eq!(text_lines("a\n"), vec!["a"]);
    assert_eq!(text_lines("a\nb"), vec!["a", "b"]);
    assert_eq!(text_lines("a\r\nb\r\n"), vec!["a", "b"]);
    assert_eq!(text_lines("a\n\nb"), vec!["a", "", "b"]);
    assert_eq!(text_lines("\n"), vec![""]);
    assert_eq!(text_lines("a\r"), vec!["a\r"]);
    assert_eq!(text_lines("a\r\r\n"), vec!["a\r"]);
}

#[test]
fn text_lines_agrees_with_std() {
    for text in [
        "",
        "\n",
        "\r\n",
        "\r",
        "one",
        "one\n",
        "one\ntwo",
        "one\r\ntwo\r\n",
        "one\n\n\ntwo\n\n",
        "a\rb\nc\r",
        " Package: r-4.3.1\n Version: 1\n",
    ] {
        let expected: Vec<String> = text.lines().map(|l| l.to_string()).collect();
        assert_eq!(text_lines(text), expected, "lines of {:?}", text);
    }
}

#[test]
fn text_lt_is_the_order_of_strings() {
    assert!(text_lt("4.10.0", "4.2.0"));
    assert!(!text_lt("4.2.0", "4.10.0"));
    assert!(text_lt("4.2", "4.2.0"));
    assert!(!text_lt("4.2.0", "4.2.0"));
    assert!(text_lt("", "a"));
    assert!(!text_lt("a", ""));
    assert!(!text_lt("", ""));
    let samples = ["", "a", "A", "ab", "b", "4.1.2", "4.10.0", "é", "z", "devel", "~", "日本"];
    for a in samples {
        for b in samples {
            assert_eq!(text_lt(a, b), a < b, "comparing {:?} and {:?}", a, b);
        }
    }
}
