//! The exchange between an operation that runs in several steps and its
//! caller. The operation asks for one thing at a time; the caller does it
//! and reports back; the operation decides what comes next.

use crate::action::Action;
use crate::action::ActionView;
use crate::catalog::HostView;
use crate::catalog::LinuxVersion;
use crate::error::ErrorView;
use crate::error::RigError;
use crate::registry::RootEntry;
use crate::registry::RootEntryView;
use crate::text::texts;
use vstd::prelude::*;

verus! {

/// What an operation asks its caller to do next.
#[derive(Debug)]
pub enum Request {
    /// Make sure that the process may change the system, for `task`.
    Escalate { task: String },
    /// Detect the host.
    DetectHost,
    /// Find the version that `spec` stands for, and where its package is.
    Resolve { spec: String },
    /// Have the file at `url` at hand under the name `file` in the cache
    /// directory `cache`, from an earlier download if that is fresh enough,
    /// and report its path.
    Fetch { url: String, cache: String, file: String },
    /// Carry out the steps of `plan`, in order.
    Perform { plan: Vec<Action> },
    /// Run `command` and report whether it succeeded.
    Ask { command: Action },
    /// Run `command` and report what it printed.
    Inspect { command: Action },
    /// Scan the installation root.
    ScanRoot,
    /// Make `version` the default version if there is none.
    SetDefaultIfNone { version: String },
    /// Make the user library of `version` part of its startup profile.
    UpdateLibraryProfile { version: String },
    /// Rebuild the quick links.
    MakeLinks,
    /// Make `alias` an alias of `version`.
    AddAlias { version: String, alias: String },
    /// Make the cloud mirror the default package repository of `version`.
    SetCloudMirror { version: String },
    /// Set up the binary package mirror for `version` on `host`.
    SetRspm { version: String, host: LinuxVersion },
    /// Switch on the installation of system requirements for `version` on
    /// `host`.
    SetSysreqs { version: String, host: LinuxVersion },
    /// Install the package installer, in the version `pak_version`, for
    /// `version`; again if `reinstall` is set.
    AddPak { version: String, pak_version: String, reinstall: bool },
    /// Nothing more: the operation is over, with this failure if any.
    Stop { failure: Option<RigError> },
}

/// A `Request` with its texts as character sequences.
pub enum RequestView {
    Escalate { task: Seq<char> },
    DetectHost,
    Resolve { spec: Seq<char> },
    Fetch { url: Seq<char>, cache: Seq<char>, file: Seq<char> },
    Perform { plan: Seq<ActionView> },
    Ask { command: ActionView },
    Inspect { command: ActionView },
    ScanRoot,
    SetDefaultIfNone { version: Seq<char> },
    UpdateLibraryProfile { version: Seq<char> },
    MakeLinks,
    AddAlias { version: Seq<char>, alias: Seq<char> },
    SetCloudMirror { version: Seq<char> },
    SetRspm { version: Seq<char>, host: HostView },
    SetSysreqs { version: Seq<char>, host: HostView },
    AddPak { version: Seq<char>, pak_version: Seq<char>, reinstall: bool },
    Stop { failure: Option<ErrorView> },
}

impl View for Request {
    type V = RequestView;

    open spec fn view(&self) -> RequestView {
        match self {
            Request::Escalate { task } => RequestView::Escalate { task: task@ },
            Request::DetectHost => RequestView::DetectHost,
            Request::Resolve { spec } => RequestView::Resolve { spec: spec@ },
            Request::Fetch { url, cache, file } => RequestView::Fetch {
                url: url@,
                cache: cache@,
                file: file@,
            },
            Request::Perform { plan } => RequestView::Perform { plan: plan.deep_view() },
            Request::Ask { command } => RequestView::Ask { command: command@ },
            Request::Inspect { command } => RequestView::Inspect { command: command@ },
            Request::ScanRoot => RequestView::ScanRoot,
            Request::SetDefaultIfNone { version } => RequestView::SetDefaultIfNone {
                version: version@,
            },
            Request::UpdateLibraryProfile { version } => RequestView::UpdateLibraryProfile {
                version: version@,
            },
            Request::MakeLinks => RequestView::MakeLinks,
            Request::AddAlias { version, alias } => RequestView::AddAlias {
                version: version@,
                alias: alias@,
            },
            Request::SetCloudMirror { version } => RequestView::SetCloudMirror { version: version@ },
            Request::SetRspm { version, host } => RequestView::SetRspm {
                version: version@,
                host: host@,
            },
            Request::SetSysreqs { version, host } => RequestView::SetSysreqs {
                version: version@,
                host: host@,
            },
            Request::AddPak { version, pak_version, reinstall } => RequestView::AddPak {
                version: version@,
                pak_version: pak_version@,
                reinstall: *reinstall,
            },
            Request::Stop { failure } => RequestView::Stop {
                failure: match failure {
                    Some(e) => Some(e@),
                    None => None,
                },
            },
        }
    }
}

/// What the caller reports back.
#[derive(Debug)]
pub enum Reply {
    /// Nothing yet: the operation is to begin.
    Begin,
    /// What was asked for is done.
    Done,
    /// What was asked for failed, in this way.
    Failed { error: RigError },
    /// The host that was detected.
    Host { host: LinuxVersion },
    /// What a version specifier was resolved to: the version, and the URL
    /// of its package, as far as they are known.
    Resolved { version: Option<String>, url: Option<String> },
    /// The path of the file that was fetched.
    Fetched { path: String },
    /// Whether the command that was run succeeded.
    Status { success: bool },
    /// What the command that was run printed.
    Output { text: String },
    /// What the installation root holds.
    Root { entries: Vec<RootEntry> },
}

/// A `Reply` with its texts as character sequences.
pub enum ReplyView {
    Begin,
    Done,
    Failed { error: ErrorView },
    Host { host: HostView },
    Resolved { version: Option<Seq<char>>, url: Option<Seq<char>> },
    Fetched { path: Seq<char> },
    Status { success: bool },
    Output { text: Seq<char> },
    Root { entries: Seq<RootEntryView> },
}

impl View for Reply {
    type V = ReplyView;

    open spec fn view(&self) -> ReplyView {
        match self {
            Reply::Begin => ReplyView::Begin,
            Reply::Done => ReplyView::Done,
            Reply::Failed { error } => ReplyView::Failed { error: error@ },
            Reply::Host { host } => ReplyView::Host { host: host@ },
            Reply::Resolved { version, url } => ReplyView::Resolved {
                version: version.deep_view(),
                url: url.deep_view(),
            },
            Reply::Fetched { path } => ReplyView::Fetched { path: path@ },
            Reply::Status { success } => ReplyView::Status { success: *success },
            Reply::Output { text } => ReplyView::Output { text: text@ },
            Reply::Root { entries } => ReplyView::Root { entries: entries.deep_view() },
        }
    }
}

/// The request that ends an operation with `failure`.
pub open spec fn stop_with(failure: ErrorView) -> RequestView {
    RequestView::Stop { failure: Some(failure) }
}

/// The request that ends an operation that has succeeded.
pub open spec fn stop() -> RequestView {
    RequestView::Stop { failure: None }
}

} // verus!
