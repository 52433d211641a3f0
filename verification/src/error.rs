//! The failures that an operation can end with.

use crate::text::concat2;
use crate::text::concat3;
use vstd::prelude::*;
use vstd::string::StringExecFns;

verus! {

/// Why an operation was given up. Every failure ends the operation it
/// occurs in; nothing is retried and nothing is rolled back.
#[derive(Debug)]
pub enum RigError {
    /// The host is neither a supported distribution nor a derivative of one.
    UnsupportedDistro { distro: String, version: String },
    /// No package URL is known for the requested version.
    DownloadUnresolved { version: String },
    /// A package manager command failed or its output could not be read.
    CommandError { what: String },
    /// The package metadata names no `r-<version>` package.
    MetadataParseError,
    /// The version is not among the installed ones.
    NotInstalled { version: String },
    /// A link, file or directory could not be created or removed.
    FilesystemError { path: String },
    /// A search pattern was not accepted by the pattern engine.
    BadPattern,
    /// The operation needs privileges that the process could not get.
    InsufficientPrivilege,
    /// An operation was told something that answers none of its requests.
    OutOfTurn,
}

/// What a `RigError` says, with its texts as character sequences.
pub enum ErrorView {
    UnsupportedDistro { distro: Seq<char>, version: Seq<char> },
    DownloadUnresolved { version: Seq<char> },
    CommandError { what: Seq<char> },
    MetadataParseError,
    NotInstalled { version: Seq<char> },
    FilesystemError { path: Seq<char> },
    BadPattern,
    InsufficientPrivilege,
    OutOfTurn,
}

impl View for RigError {
    type V = ErrorView;

    open spec fn view(&self) -> ErrorView {
        match self {
            RigError::UnsupportedDistro { distro, version } => ErrorView::UnsupportedDistro {
                distro: distro@,
                version: version@,
            },
            RigError::DownloadUnresolved { version } => ErrorView::DownloadUnresolved {
                version: version@,
            },
            RigError::CommandError { what } => ErrorView::CommandError { what: what@ },
            RigError::MetadataParseError => ErrorView::MetadataParseError,
            RigError::NotInstalled { version } => ErrorView::NotInstalled { version: version@ },
            RigError::FilesystemError { path } => ErrorView::FilesystemError { path: path@ },
            RigError::BadPattern => ErrorView::BadPattern,
            RigError::InsufficientPrivilege => ErrorView::InsufficientPrivilege,
            RigError::OutOfTurn => ErrorView::OutOfTurn,
        }
    }
}

/// What the message for an unsupported host begins with; the
/// distribution and the release follow.
pub const UNSUPPORTED_HEAD: &'static str = "Unsupported distro: ";

/// What the message for an unsupported host ends with: the list of what
/// is supported.
pub const UNSUPPORTED_TAIL: &'static str =
    ", only Ubuntu 18.04, 20.04, 22.04 and Debian 9-11 are supported currently";

/// The message for a version without a package URL; the version follows.
pub const UNRESOLVED_HEAD: &'static str = "Cannot find a download url for R version ";

/// The message for a command that failed; the command follows.
pub const COMMAND_HEAD: &'static str = "Failed to run ";

/// The message for a package that does not tell its version.
pub const METADATA_MESSAGE: &'static str = "Cannot find the R version in the package description";

/// What the message for a version that is not installed begins with.
pub const NOT_INSTALLED_HEAD: &'static str = "R version ";

/// What the message for a version that is not installed ends with.
pub const NOT_INSTALLED_TAIL: &'static str = " is not installed";

/// The message for a path that could not be changed; the path follows.
pub const FILESYSTEM_HEAD: &'static str = "Failed to create or remove ";

/// The message for a pattern that was not accepted.
pub const PATTERN_MESSAGE: &'static str = "A search pattern was not accepted";

/// The message for missing privileges.
pub const PRIVILEGE_MESSAGE: &'static str = "This needs the privileges of the administrator";

/// The message for a report that answers no request.
pub const OUT_OF_TURN_MESSAGE: &'static str = "A report came that answers no request";

/// What a failure says to the user. The message for an unsupported host
/// names the host and lists the distributions that are supported.
pub open spec fn message_of(e: ErrorView) -> Seq<char> {
    match e {
        ErrorView::UnsupportedDistro { distro, version } => UNSUPPORTED_HEAD@ + (distro + " "@
            + version) + UNSUPPORTED_TAIL@,
        ErrorView::DownloadUnresolved { version } => UNRESOLVED_HEAD@ + version,
        ErrorView::CommandError { what } => COMMAND_HEAD@ + what,
        ErrorView::MetadataParseError => METADATA_MESSAGE@,
        ErrorView::NotInstalled { version } => NOT_INSTALLED_HEAD@ + version + NOT_INSTALLED_TAIL@,
        ErrorView::FilesystemError { path } => FILESYSTEM_HEAD@ + path,
        ErrorView::BadPattern => PATTERN_MESSAGE@,
        ErrorView::InsufficientPrivilege => PRIVILEGE_MESSAGE@,
        ErrorView::OutOfTurn => OUT_OF_TURN_MESSAGE@,
    }
}

impl RigError {
    /// What this failure says to the user.
    pub fn message(&self) -> (r: String)
        ensures
            r@ == message_of(self@),
    {
        match self {
            RigError::UnsupportedDistro { distro, version } => {
                let host = concat3(distro.as_str(), " ", version.as_str());
                concat3(UNSUPPORTED_HEAD, host.as_str(), UNSUPPORTED_TAIL)
            },
            RigError::DownloadUnresolved { version } => concat2(UNRESOLVED_HEAD, version.as_str()),
            RigError::CommandError { what } => concat2(COMMAND_HEAD, what.as_str()),
            RigError::MetadataParseError => String::from_str(METADATA_MESSAGE),
            RigError::NotInstalled { version } => concat3(
                NOT_INSTALLED_HEAD,
                version.as_str(),
                NOT_INSTALLED_TAIL,
            ),
            RigError::FilesystemError { path } => concat2(FILESYSTEM_HEAD, path.as_str()),
            RigError::BadPattern => String::from_str(PATTERN_MESSAGE),
            RigError::InsufficientPrivilege => String::from_str(PRIVILEGE_MESSAGE),
            RigError::OutOfTurn => String::from_str(OUT_OF_TURN_MESSAGE),
        }
    }
}

} // verus!
