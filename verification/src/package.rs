//! Packages: the commands that install and remove them, and what the
//! package's own description says of the version inside.

use crate::action::Action;
use crate::action::ActionView;
use crate::error::ErrorView;
use crate::error::RigError;
use crate::pattern::blocked;
use crate::pattern::find_line;
use crate::pattern::regex_accepts;
use crate::pattern::first_match;
use crate::pattern::regex_replace;
use crate::pattern::replace;
use crate::text::concat2;
use crate::text::lines_of;
use crate::text::text_lines;
use crate::text::texts;
use vstd::prelude::*;
use vstd::string::StringExecFns;

verus! {

/// The line of a package's description that names the package, for the
/// packages of R; its one group is the version.
pub const PACKAGE_PATTERN: &'static str = "^[ ]*Package: r-(.*)$";

/// The replacement that leaves only the first group of a match.
pub const FIRST_GROUP: &'static str = "${1}";

/// What the name of every R package begins with.
pub const PACKAGE_PREFIX: &'static str = "r-";

/// The option that keeps the package manager from opening a terminal.
pub const NO_PTY: &'static str = "-o=Dpkg::Use-Pty=0";

/// The name of the package that holds a version.
pub open spec fn package_name(version: Seq<char>) -> Seq<char> {
    PACKAGE_PREFIX@ + version
}

/// The name of the package that holds `version`.
pub fn get_package_name(version: &str) -> (r: String)
    ensures
        r@ == package_name(version@),
{
    concat2(PACKAGE_PREFIX, version)
}

/// The version that a package's description names: what stands behind
/// `r-` in the first line that names an R package.
pub open spec fn described_version(lines: Seq<Seq<char>>) -> Option<Seq<char>> {
    match first_match(PACKAGE_PATTERN@, lines) {
        Some(at) => Some(regex_replace(PACKAGE_PATTERN@, lines[at], FIRST_GROUP@)),
        None => None,
    }
}

/// What the reading of a description comes to. Where the description has
/// lines and the pattern is not accepted, it fails with `BadPattern`.
/// Otherwise the first line that names an R package gives the version, and
/// without such a line it fails with `MetadataParseError`.
pub open spec fn described_outcome(lines: Seq<Seq<char>>) -> Result<Seq<char>, ErrorView> {
    if blocked(PACKAGE_PATTERN@, lines.len()) {
        Err(ErrorView::BadPattern)
    } else {
        match described_version(lines) {
            Some(v) => Ok(v),
            None => Err(ErrorView::MetadataParseError),
        }
    }
}

/// What a result says, with its texts as character sequences.
pub open spec fn version_outcome(r: Result<String, RigError>) -> Result<Seq<char>, ErrorView> {
    match r {
        Ok(v) => Ok(v@),
        Err(e) => Err(e@),
    }
}

/// The version that a package installs, given what its description names,
/// if it names anything: without a name it fails with
/// `MetadataParseError`.
pub fn installed_version(described: Option<String>) -> (r: Result<String, RigError>)
    ensures
        match described {
            Some(v) => r matches Ok(w) && w@ == v@,
            None => r matches Err(e) && e@ == ErrorView::MetadataParseError,
        },
{
    match described {
        Some(v) => Ok(v),
        None => Err(RigError::MetadataParseError),
    }
}

/// The version that a package installs, read from the lines of the
/// package's description. The first line that names an R package decides.
/// Fails with `MetadataParseError` when no line does, and with
/// `BadPattern` only where there are lines and the pattern is not accepted.
pub fn described_version_of(lines: &Vec<String>) -> (r: Result<String, RigError>)
    ensures
        version_outcome(r) == described_outcome(texts(lines@)),
        regex_accepts(PACKAGE_PATTERN@) ==> match described_version(texts(lines@)) {
            Some(v) => r matches Ok(w) && w@ == v,
            None => r matches Err(e) && e@ == ErrorView::MetadataParseError,
        },
{
    let described = match find_line(PACKAGE_PATTERN, lines)? {
        Some(at) => Some(replace(PACKAGE_PATTERN, lines[at].as_str(), FIRST_GROUP)?),
        None => None,
    };
    installed_version(described)
}

/// The version that a package installs; `description` is what the package
/// inspection printed. Fails with `MetadataParseError` when no line of it
/// names an R package, and with `BadPattern` only where it has lines and
/// the pattern is not accepted.
pub fn get_install_dir_deb(description: &str) -> (r: Result<String, RigError>)
    ensures
        version_outcome(r) == described_outcome(lines_of(description@)),
        regex_accepts(PACKAGE_PATTERN@) ==> match described_version(lines_of(description@)) {
            Some(v) => r matches Ok(w) && w@ == v,
            None => r matches Err(e) && e@ == ErrorView::MetadataParseError,
        },
{
    let lines = text_lines(description);
    described_version_of(&lines)
}

/// The command that prints the description of the package file at `path`.
pub open spec fn inspection(path: Seq<char>) -> ActionView {
    ActionView::Run { program: "dpkg"@, args: seq!["-I"@, path], what: "dpkg -I"@ }
}

/// The command that prints the description of the package file at `path`.
pub fn inspect_command(path: &str) -> (r: Action)
    ensures
        r@ == inspection(path@),
{
    let mut args: Vec<String> = Vec::new();
    args.push(String::from_str("-I"));
    args.push(String::from_str(path));
    assert(texts(args@) =~= seq!["-I"@, path@]);
    Action::Run { program: String::from_str("dpkg"), args, what: String::from_str("dpkg -I") }
}

/// The commands that install the package file at `path`: the package lists
/// are refreshed, then the file is installed, again if it is installed
/// already, without questions.
pub open spec fn installation(path: Seq<char>) -> Seq<ActionView> {
    seq![
        ActionView::Run { program: "apt-get"@, args: seq!["update"@], what: "apt-get update"@ },
        ActionView::Run {
            program: "apt"@,
            args: seq!["install"@, "--reinstall"@, "-y"@, NO_PTY@, path],
            what: "apt install"@,
        },
    ]
}

/// The commands that install the package file at `path`.
pub fn add_deb(path: &str) -> (r: Vec<Action>)
    ensures
        r.deep_view() == installation(path@),
{
    let mut update: Vec<String> = Vec::new();
    update.push(String::from_str("update"));
    assert(texts(update@) =~= seq!["update"@]);
    let mut install: Vec<String> = Vec::new();
    install.push(String::from_str("install"));
    install.push(String::from_str("--reinstall"));
    install.push(String::from_str("-y"));
    install.push(String::from_str(NO_PTY));
    install.push(String::from_str(path));
    assert(texts(install@) =~= seq!["install"@, "--reinstall"@, "-y"@, NO_PTY@, path@]);
    let mut plan: Vec<Action> = Vec::new();
    plan.push(
        Action::Run {
            program: String::from_str("apt-get"),
            args: update,
            what: String::from_str("apt-get update"),
        },
    );
    plan.push(
        Action::Run {
            program: String::from_str("apt"),
            args: install,
            what: String::from_str("apt install"),
        },
    );
    assert(plan.deep_view() =~= installation(path@));
    plan
}

/// The command that tells whether the package manager knows a package: it
/// succeeds exactly if it does.
pub open spec fn status_query(package: Seq<char>) -> ActionView {
    ActionView::Run { program: "dpkg"@, args: seq!["-s"@, package], what: "dpkg -s"@ }
}

/// The command that tells whether the package manager knows `package`.
pub fn status_command(package: &str) -> (r: Action)
    ensures
        r@ == status_query(package@),
{
    let mut args: Vec<String> = Vec::new();
    args.push(String::from_str("-s"));
    args.push(String::from_str(package));
    assert(texts(args@) =~= seq!["-s"@, package@]);
    Action::Run { program: String::from_str("dpkg"), args, what: String::from_str("dpkg -s") }
}

/// The command that removes a package with its configuration, without
/// questions.
pub open spec fn purge(package: Seq<char>) -> ActionView {
    ActionView::Run {
        program: "apt-get"@,
        args: seq!["remove"@, "-y"@, NO_PTY@, "--purge"@, package],
        what: "apt-get remove"@,
    }
}

/// The command that removes `package` with its configuration.
pub fn purge_command(package: &str) -> (r: Action)
    ensures
        r@ == purge(package@),
{
    let mut args: Vec<String> = Vec::new();
    args.push(String::from_str("remove"));
    args.push(String::from_str("-y"));
    args.push(String::from_str(NO_PTY));
    args.push(String::from_str("--purge"));
    args.push(String::from_str(package));
    assert(texts(args@) =~= seq!["remove"@, "-y"@, NO_PTY@, "--purge"@, package@]);
    Action::Run {
        program: String::from_str("apt-get"),
        args,
        what: String::from_str("apt-get remove"),
    }
}

} // verus!
