//! Adding a version, one step at a time: the host is detected, the
//! version is resolved, its package is fetched and installed, and then the
//! new installation is made ready for use.

use crate::catalog::unknown_host;
use crate::catalog::HostView;
use crate::catalog::LinuxVersion;
use crate::error::ErrorView;
use crate::error::RigError;
use crate::package::add_deb;
use crate::package::described_outcome;
use crate::package::described_version;
use crate::package::get_install_dir_deb;
use crate::package::inspect_command;
use crate::package::inspection;
use crate::package::installation;
use crate::text::lines_of;
use crate::text::split;
use crate::text::split_text;
use crate::text::text_eq;
use crate::text::texts;
use crate::workflow::stop;
use crate::workflow::stop_with;
use crate::workflow::Reply;
use crate::workflow::ReplyView;
use crate::workflow::Request;
use crate::workflow::RequestView;
use vstd::prelude::*;
use vstd::string::StringExecFns;

verus! {

/// What privileges are asked for.
pub const ADD_TASK: &'static str = "adding new R versions";

/// The cache directory for packages, below the system's directory for
/// temporary files.
pub const CACHE_DIR: &'static str = "rig";

/// What stands for a version that is not known, in messages.
pub const NO_VERSION: &'static str = "???";

/// What the user asked for.
#[derive(Debug)]
pub struct AddOptions {
    /// The version to add, as the user names it.
    pub spec: String,
    /// The alias to give the new version, if any.
    pub alias: Option<String>,
    /// Leave the default package repository as it is.
    pub without_cran_mirror: bool,
    /// Do not set up the binary package mirror.
    pub without_rspm: bool,
    /// Do not switch on the installation of system requirements.
    pub without_sysreqs: bool,
    /// Do not install the package installer.
    pub without_pak: bool,
    /// The version of the package installer to install.
    pub pak_version: String,
    /// Whether the user named that version.
    pub pak_version_given: bool,
}

/// `AddOptions` with its texts as character sequences.
pub struct AddOptionsView {
    pub spec: Seq<char>,
    pub alias: Option<Seq<char>>,
    pub without_cran_mirror: bool,
    pub without_rspm: bool,
    pub without_sysreqs: bool,
    pub without_pak: bool,
    pub pak_version: Seq<char>,
    pub pak_version_given: bool,
}

impl View for AddOptions {
    type V = AddOptionsView;

    open spec fn view(&self) -> AddOptionsView {
        AddOptionsView {
            spec: self.spec@,
            alias: self.alias.deep_view(),
            without_cran_mirror: self.without_cran_mirror,
            without_rspm: self.without_rspm,
            without_sysreqs: self.without_sysreqs,
            without_pak: self.without_pak,
            pak_version: self.pak_version@,
            pak_version_given: self.pak_version_given,
        }
    }
}

/// What was asked for last.
#[derive(Clone, Copy, Debug, PartialEq, Eq, Structural)]
pub enum Stage {
    /// Nothing yet.
    Start,
    /// Privileges.
    Escalating,
    /// The host.
    Detecting,
    /// The version and the URL of its package.
    Resolving,
    /// The package file.
    Fetching,
    /// The installation of the package.
    Installing,
    /// The description of the package.
    Inspecting,
    /// A default version.
    Defaulting,
    /// The user library in the startup profile.
    Profiling,
    /// The quick links.
    Linking,
    /// The alias.
    Aliasing,
    /// The default package repository.
    Mirroring,
    /// The binary package mirror.
    Proxying,
    /// The installation of system requirements.
    Requiring,
    /// The package installer.
    Bootstrapping,
    /// Nothing more: the operation is over.
    Finished,
}

/// How far an addition has come, and what it has learnt on the way.
#[derive(Debug)]
pub struct AddState {
    /// What was asked for last.
    pub stage: Stage,
    /// The host, once it is detected.
    pub host: LinuxVersion,
    /// The path of the package file, once it is fetched.
    pub package: String,
    /// The version that was installed, once the package has told.
    pub version: String,
}

/// An `AddState` with its texts as character sequences.
pub struct AddStateView {
    pub stage: Stage,
    pub host: HostView,
    pub package: Seq<char>,
    pub version: Seq<char>,
}

impl View for AddState {
    type V = AddStateView;

    open spec fn view(&self) -> AddStateView {
        AddStateView {
            stage: self.stage,
            host: self.host@,
            package: self.package@,
            version: self.version@,
        }
    }
}

/// The state in which an addition begins.
pub open spec fn initial() -> AddStateView {
    AddStateView {
        stage: Stage::Start,
        host: unknown_host(),
        package: Seq::<char>::empty(),
        version: Seq::<char>::empty(),
    }
}

impl AddState {
    /// The state in which an addition begins.
    pub fn new() -> (r: AddState)
        ensures
            r@ == initial(),
    {
        AddState {
            stage: Stage::Start,
            host: LinuxVersion::unknown(),
            package: String::new(),
            version: String::new(),
        }
    }
}

/// `state` at another stage.
pub open spec fn at(state: AddStateView, stage: Stage) -> AddStateView {
    AddStateView { stage, ..state }
}

/// The name under which a package is kept: the last segment of its URL.
pub open spec fn url_file(url: Seq<char>) -> Seq<char> {
    split(url, '/').last()
}

/// The name under which the package at `url` is kept.
pub fn get_url_file(url: &str) -> (r: String)
    ensures
        r@ == url_file(url@),
{
    let mut pieces = split_text(url, '/');
    proof {
        crate::text::lemma_split_pieces(url@, '/');
        assert(texts(pieces@).last() == pieces@.last()@);
    }
    match pieces.pop() {
        Some(last) => last,
        None => String::new(),
    }
}

/// Whether packages can be installed on a distribution: on Ubuntu and on
/// Debian.
pub open spec fn has_packages(distro: Seq<char>) -> bool {
    distro == "ubuntu"@ || distro == "debian"@
}

/// The first of the steps that make a new installation ready which is
/// still due and was not declined. The steps are, in this order: the
/// alias, the default package repository, the binary package mirror, the
/// installation of system requirements, and the package installer; `done`
/// tells how many of them are behind. When none is left the operation ends.
pub open spec fn finishing(opts: AddOptionsView, state: AddStateView, done: int) -> (
    AddStateView,
    RequestView,
) {
    if done <= 0 && opts.alias is Some {
        (
            at(state, Stage::Aliasing),
            RequestView::AddAlias { version: state.version, alias: opts.alias->0 },
        )
    } else if done <= 1 && !opts.without_cran_mirror {
        (at(state, Stage::Mirroring), RequestView::SetCloudMirror { version: state.version })
    } else if done <= 2 && !opts.without_rspm {
        (
            at(state, Stage::Proxying),
            RequestView::SetRspm { version: state.version, host: state.host },
        )
    } else if done <= 3 && !opts.without_sysreqs {
        (
            at(state, Stage::Requiring),
            RequestView::SetSysreqs { version: state.version, host: state.host },
        )
    } else if done <= 4 && !opts.without_pak {
        (
            at(state, Stage::Bootstrapping),
            RequestView::AddPak {
                version: state.version,
                pak_version: opts.pak_version,
                reinstall: opts.pak_version_given,
            },
        )
    } else {
        (at(state, Stage::Finished), stop())
    }
}

/// The end of the operation with `failure`.
pub open spec fn failed(state: AddStateView, failure: ErrorView) -> (AddStateView, RequestView) {
    (at(state, Stage::Finished), stop_with(failure))
}

/// One step of an addition: from how far it has come and what the caller
/// reports, how far it is then and what it asks for next.
///
/// Privileges come first, then the host, the version and its package.
/// Without a URL for the package the operation ends with
/// `DownloadUnresolved`, on a distribution without packages with
/// `UnsupportedDistro`, and when the package does not tell its version
/// with `MetadataParseError` (with `BadPattern` only where the pattern for
/// the description is not accepted). After the installation the version becomes
/// the default if there is none, its profile is brought up to date and the
/// quick links are rebuilt; then come the steps that the user can decline.
/// Any failure that the caller reports ends the operation with that
/// failure, and a report that answers no request ends it with `OutOfTurn`.
pub open spec fn add_step(opts: AddOptionsView, state: AddStateView, reply: ReplyView) -> (
    AddStateView,
    RequestView,
) {
    let out_of_turn = failed(state, ErrorView::OutOfTurn);
    match (state.stage, reply) {
        (Stage::Start, ReplyView::Begin) => (
            at(state, Stage::Escalating),
            RequestView::Escalate { task: ADD_TASK@ },
        ),
        (Stage::Start, _) => out_of_turn,
        (Stage::Finished, _) => out_of_turn,
        (_, ReplyView::Failed { error }) => failed(state, error),
        (Stage::Escalating, ReplyView::Done) => (
            at(state, Stage::Detecting),
            RequestView::DetectHost,
        ),
        (Stage::Detecting, ReplyView::Host { host }) => (
            AddStateView { stage: Stage::Resolving, host, ..state },
            RequestView::Resolve { spec: opts.spec },
        ),
        (Stage::Resolving, ReplyView::Resolved { version, url }) => match url {
            Some(u) => (
                at(state, Stage::Fetching),
                RequestView::Fetch { url: u, cache: CACHE_DIR@, file: url_file(u) },
            ),
            None => failed(
                state,
                ErrorView::DownloadUnresolved {
                    version: match version {
                        Some(v) => v,
                        None => NO_VERSION@,
                    },
                },
            ),
        },
        (Stage::Fetching, ReplyView::Fetched { path }) => {
            if has_packages(state.host.distro) {
                (
                    AddStateView { stage: Stage::Installing, package: path, ..state },
                    RequestView::Perform { plan: installation(path) },
                )
            } else {
                failed(
                    state,
                    ErrorView::UnsupportedDistro {
                        distro: state.host.distro,
                        version: state.host.version,
                    },
                )
            }
        },
        (Stage::Installing, ReplyView::Done) => (
            at(state, Stage::Inspecting),
            RequestView::Inspect { command: inspection(state.package) },
        ),
        (Stage::Inspecting, ReplyView::Output { text }) => match described_outcome(
            lines_of(text),
        ) {
            Ok(version) => (
                AddStateView { stage: Stage::Defaulting, version, ..state },
                RequestView::SetDefaultIfNone { version },
            ),
            Err(failure) => failed(state, failure),
        },
        (Stage::Defaulting, ReplyView::Done) => (
            at(state, Stage::Profiling),
            RequestView::UpdateLibraryProfile { version: state.version },
        ),
        (Stage::Profiling, ReplyView::Done) => (at(state, Stage::Linking), RequestView::MakeLinks),
        (Stage::Linking, ReplyView::Done) => finishing(opts, state, 0),
        (Stage::Aliasing, ReplyView::Done) => finishing(opts, state, 1),
        (Stage::Mirroring, ReplyView::Done) => finishing(opts, state, 2),
        (Stage::Proxying, ReplyView::Done) => finishing(opts, state, 3),
        (Stage::Requiring, ReplyView::Done) => finishing(opts, state, 4),
        (Stage::Bootstrapping, ReplyView::Done) => finishing(opts, state, 5),
        _ => out_of_turn,
    }
}

fn fail(state: AddState, failure: RigError) -> (r: (AddState, Request))
    ensures
        (r.0@, r.1@) == failed(state@, failure@),
{
    let mut state = state;
    state.stage = Stage::Finished;
    (state, Request::Stop { failure: Some(failure) })
}

fn go(state: AddState, stage: Stage, request: Request) -> (r: (AddState, Request))
    ensures
        r.0@ == at(state@, stage),
        r.1 == request,
{
    let mut state = state;
    state.stage = stage;
    (state, request)
}

fn finish(opts: &AddOptions, state: AddState, done: u8) -> (r: (AddState, Request))
    ensures
        (r.0@, r.1@) == finishing(opts@, state@, done as int),
{
    if done == 0 {
        match &opts.alias {
            Some(alias) => {
                let request = Request::AddAlias {
                    version: state.version.clone(),
                    alias: alias.clone(),
                };
                return go(state, Stage::Aliasing, request);
            },
            None => {},
        }
    }
    if done <= 1 && !opts.without_cran_mirror {
        let request = Request::SetCloudMirror { version: state.version.clone() };
        go(state, Stage::Mirroring, request)
    } else if done <= 2 && !opts.without_rspm {
        let request = Request::SetRspm {
            version: state.version.clone(),
            host: state.host.duplicate(),
        };
        go(state, Stage::Proxying, request)
    } else if done <= 3 && !opts.without_sysreqs {
        let request = Request::SetSysreqs {
            version: state.version.clone(),
            host: state.host.duplicate(),
        };
        go(state, Stage::Requiring, request)
    } else if done <= 4 && !opts.without_pak {
        let request = Request::AddPak {
            version: state.version.clone(),
            pak_version: opts.pak_version.clone(),
            reinstall: opts.pak_version_given,
        };
        go(state, Stage::Bootstrapping, request)
    } else {
        go(state, Stage::Finished, Request::Stop { failure: None })
    }
}

/// Adds a version, one step at a time. The caller begins with a new state
/// and the reply `Begin`, does what is asked, and calls again with the
/// state it was given and with what came of the request, until it is told
/// to stop.
///
/// Each step is the one that `add_step` gives.
pub fn sc_add(opts: &AddOptions, state: AddState, reply: Reply) -> (r: (AddState, Request))
    ensures
        (r.0@, r.1@) == add_step(opts@, state@, reply@),
{
    match state.stage {
        Stage::Start => match reply {
            Reply::Begin => go(
                state,
                Stage::Escalating,
                Request::Escalate { task: String::from_str(ADD_TASK) },
            ),
            _ => fail(state, RigError::OutOfTurn),
        },
        Stage::Finished => fail(state, RigError::OutOfTurn),
        stage => match reply {
            Reply::Failed { error } => fail(state, error),
            Reply::Done => match stage {
                Stage::Escalating => go(state, Stage::Detecting, Request::DetectHost),
                Stage::Installing => {
                    let request = Request::Inspect {
                        command: inspect_command(state.package.as_str()),
                    };
                    go(state, Stage::Inspecting, request)
                },
                Stage::Defaulting => {
                    let request = Request::UpdateLibraryProfile { version: state.version.clone() };
                    go(state, Stage::Profiling, request)
                },
                Stage::Profiling => go(state, Stage::Linking, Request::MakeLinks),
                Stage::Linking => finish(opts, state, 0),
                Stage::Aliasing => finish(opts, state, 1),
                Stage::Mirroring => finish(opts, state, 2),
                Stage::Proxying => finish(opts, state, 3),
                Stage::Requiring => finish(opts, state, 4),
                Stage::Bootstrapping => finish(opts, state, 5),
                _ => fail(state, RigError::OutOfTurn),
            },
            Reply::Host { host } => match stage {
                Stage::Detecting => {
                    let mut state = state;
                    state.host = host;
                    go(state, Stage::Resolving, Request::Resolve { spec: opts.spec.clone() })
                },
                _ => fail(state, RigError::OutOfTurn),
            },
            Reply::Resolved { version, url } => match stage {
                Stage::Resolving => match url {
                    Some(u) => {
                        let file = get_url_file(u.as_str());
                        go(
                            state,
                            Stage::Fetching,
                            Request::Fetch { url: u, cache: String::from_str(CACHE_DIR), file },
                        )
                    },
                    None => {
                        let version = match version {
                            Some(v) => v,
                            None => String::from_str(NO_VERSION),
                        };
                        fail(state, RigError::DownloadUnresolved { version })
                    },
                },
                _ => fail(state, RigError::OutOfTurn),
            },
            Reply::Fetched { path } => match stage {
                Stage::Fetching => {
                    if text_eq(state.host.distro.as_str(), "ubuntu") || text_eq(
                        state.host.distro.as_str(),
                        "debian",
                    ) {
                        let plan = add_deb(path.as_str());
                        let mut state = state;
                        state.package = path;
                        go(state, Stage::Installing, Request::Perform { plan })
                    } else {
                        let failure = RigError::UnsupportedDistro {
                            distro: state.host.distro.clone(),
                            version: state.host.version.clone(),
                        };
                        fail(state, failure)
                    }
                },
                _ => fail(state, RigError::OutOfTurn),
            },
            Reply::Output { text } => match stage {
                Stage::Inspecting => match get_install_dir_deb(text.as_str()) {
                    Ok(version) => {
                        let request = Request::SetDefaultIfNone { version: version.clone() };
                        let mut state = state;
                        state.version = version;
                        go(state, Stage::Defaulting, request)
                    },
                    Err(error) => fail(state, error),
                },
                _ => fail(state, RigError::OutOfTurn),
            },
            _ => fail(state, RigError::OutOfTurn),
        },
    }
}

/// Nothing is touched before privileges are asked for: whatever the caller
/// says at the start, the first request is for privileges, or the
/// operation stops.
pub proof fn add_begins_with_escalation(opts: AddOptionsView, state: AddStateView, reply: ReplyView)
    requires
        state.stage == Stage::Start,
    ensures
        add_step(opts, state, reply).1 is Escalate || add_step(opts, state, reply).1 is Stop,
        add_step(opts, state, ReplyView::Begin).1 == (RequestView::Escalate { task: ADD_TASK@ }),
{
}

/// A failure ends the operation at once, with that failure: whatever was
/// under way, nothing more is asked for.
pub proof fn add_failure_stops(opts: AddOptionsView, state: AddStateView, error: ErrorView)
    requires
        state.stage != Stage::Start,
        state.stage != Stage::Finished,
    ensures
        add_step(opts, state, ReplyView::Failed { error }) == failed(state, error),
{
}

/// Once the operation is over it stays over.
pub proof fn add_finished_stays(opts: AddOptionsView, state: AddStateView, reply: ReplyView)
    requires
        state.stage == Stage::Finished,
    ensures
        add_step(opts, state, reply).0.stage == Stage::Finished,
        add_step(opts, state, reply).1 is Stop,
{
}

/// What the user declined is never asked for, at no step and whatever the
/// caller reports; and an alias is only made when the user named one.
pub proof fn add_respects_what_was_declined(
    opts: AddOptionsView,
    state: AddStateView,
    reply: ReplyView,
)
    ensures
        opts.alias is None ==> !(add_step(opts, state, reply).1 is AddAlias),
        opts.without_cran_mirror ==> !(add_step(opts, state, reply).1 is SetCloudMirror),
        opts.without_rspm ==> !(add_step(opts, state, reply).1 is SetRspm),
        opts.without_sysreqs ==> !(add_step(opts, state, reply).1 is SetSysreqs),
        opts.without_pak ==> !(add_step(opts, state, reply).1 is AddPak),
{
}

/// The steps that make a new installation ready come in a fixed order:
/// after each of them, none of the earlier ones is asked for again.
pub proof fn add_finishes_in_order(opts: AddOptionsView, state: AddStateView, done: int)
    ensures
        done >= 1 ==> !(finishing(opts, state, done).1 is AddAlias),
        done >= 2 ==> !(finishing(opts, state, done).1 is SetCloudMirror),
        done >= 3 ==> !(finishing(opts, state, done).1 is SetRspm),
        done >= 4 ==> !(finishing(opts, state, done).1 is SetSysreqs),
        done >= 5 ==> finishing(opts, state, done) == (at(state, Stage::Finished), stop()),
{
}

/// An addition on which nothing fails runs in this order: privileges, the
/// host, the version, the package file, the installation, the package's
/// description, the default version, the profile, the quick links, and
/// then the first of the steps that the user did not decline.
pub proof fn add_runs_in_order(
    opts: AddOptionsView,
    host: HostView,
    resolved: Option<Seq<char>>,
    url: Seq<char>,
    path: Seq<char>,
    description: Seq<char>,
    version: Seq<char>,
)
    requires
        has_packages(host.distro),
        described_outcome(lines_of(description)) == Ok::<Seq<char>, ErrorView>(version),
    ensures
        ({
            let a = add_step(opts, initial(), ReplyView::Begin);
            let b = add_step(opts, a.0, ReplyView::Done);
            let c = add_step(opts, b.0, ReplyView::Host { host });
            let d = add_step(opts, c.0, ReplyView::Resolved { version: resolved, url: Some(url) });
            let e = add_step(opts, d.0, ReplyView::Fetched { path });
            let f = add_step(opts, e.0, ReplyView::Done);
            let g = add_step(opts, f.0, ReplyView::Output { text: description });
            let h = add_step(opts, g.0, ReplyView::Done);
            let i = add_step(opts, h.0, ReplyView::Done);
            let j = add_step(opts, i.0, ReplyView::Done);
            &&& a.1 == RequestView::Escalate { task: ADD_TASK@ }
            &&& b.1 == RequestView::DetectHost
            &&& c.1 == RequestView::Resolve { spec: opts.spec }
            &&& d.1 == RequestView::Fetch { url, cache: CACHE_DIR@, file: url_file(url) }
            &&& e.1 == RequestView::Perform { plan: installation(path) }
            &&& f.1 == RequestView::Inspect { command: inspection(path) }
            &&& g.1 == RequestView::SetDefaultIfNone { version }
            &&& h.1 == RequestView::UpdateLibraryProfile { version }
            &&& i.1 == RequestView::MakeLinks
            &&& j == finishing(opts, i.0, 0)
            &&& i.0.version == version
            &&& i.0.host == host
        }),
{
}

} // verus!
