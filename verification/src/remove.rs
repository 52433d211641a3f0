//! Removing installed versions, one step at a time: the package of each
//! version is removed if the package manager knows it, then the version's
//! directory, and at the end the quick links are rebuilt.

use crate::action::Action;
use crate::action::ActionView;
use crate::error::ErrorView;
use crate::error::RigError;
use crate::package::get_package_name;
use crate::package::package_name;
use crate::package::purge;
use crate::package::purge_command;
use crate::package::status_command;
use crate::package::status_query;
use crate::paths::get_version_dir;
use crate::paths::version_dir;
use crate::registry::check_installed;
use crate::registry::is_installed;
use crate::text::texts;
use crate::workflow::stop;
use crate::workflow::stop_with;
use crate::workflow::Reply;
use crate::workflow::ReplyView;
use crate::workflow::Request;
use crate::workflow::RequestView;
use vstd::prelude::*;
use vstd::string::StringExecFns;

verus! {

/// What privileges are asked for.
pub const RM_TASK: &'static str = "removing R versions";

/// How far a removal has come.
#[derive(Clone, Copy, Debug, PartialEq, Eq, Structural)]
pub enum RmState {
    /// Nothing was asked for yet.
    Start,
    /// Privileges were asked for.
    Escalating,
    /// A scan of the installation root was asked for, to find the version
    /// at position `next`.
    Scanning { next: usize },
    /// The package manager was asked about the version at position `next`.
    Asking { next: usize },
    /// The removal of the version at position `next` was asked for.
    Removing { next: usize },
    /// The rebuild of the quick links was asked for.
    Relinking,
    /// The operation is over.
    Finished,
}

/// The steps that remove one version: its package, if the package manager
/// knows it, and then its directory with all it holds, whether or not there
/// was a package.
pub open spec fn removal(version: Seq<char>, registered: bool) -> Seq<ActionView> {
    let tree = ActionView::RemoveTree { path: version_dir(version) };
    if registered {
        seq![purge(package_name(version)), tree]
    } else {
        seq![tree]
    }
}

/// The steps that remove `version`; `registered` tells whether the package
/// manager knows its package.
pub fn removal_plan(version: &str, registered: bool) -> (r: Vec<Action>)
    ensures
        r.deep_view() == removal(version@, registered),
{
    let mut plan: Vec<Action> = Vec::new();
    if registered {
        plan.push(purge_command(get_package_name(version).as_str()));
    }
    plan.push(Action::RemoveTree { path: get_version_dir(version) });
    assert(plan.deep_view() =~= removal(version@, registered));
    plan
}

/// What follows the removal of the version at position `next`: the scan
/// for the next version, or the rebuild of the quick links after the last.
pub open spec fn after_version(count: nat, next: usize) -> (RmState, RequestView) {
    if next + 1 < count {
        (RmState::Scanning { next: (next + 1) as usize }, RequestView::ScanRoot)
    } else {
        (RmState::Relinking, RequestView::MakeLinks)
    }
}

/// One step of a removal: from how far it has come and what the caller
/// reports, how far it is then and what it asks for next.
///
/// Privileges come first. Without a list of versions nothing else happens.
/// Each version is looked up in a fresh scan, and one that is not installed
/// ends the operation with `NotInstalled`. Any failure that the caller
/// reports ends the operation with that failure, and a report that answers
/// no request ends it with `OutOfTurn`.
pub open spec fn rm_step(versions: Option<Seq<Seq<char>>>, state: RmState, reply: ReplyView) -> (
    RmState,
    RequestView,
) {
    let count = match versions {
        Some(list) => list.len(),
        None => 0,
    };
    let out_of_turn = (RmState::Finished, stop_with(ErrorView::OutOfTurn));
    match (state, reply) {
        (RmState::Start, ReplyView::Begin) => (
            RmState::Escalating,
            RequestView::Escalate { task: RM_TASK@ },
        ),
        (RmState::Start, _) => out_of_turn,
        (RmState::Finished, _) => out_of_turn,
        (_, ReplyView::Failed { error }) => (RmState::Finished, stop_with(error)),
        (RmState::Escalating, ReplyView::Done) => {
            if versions is None {
                (RmState::Finished, stop())
            } else if count == 0 {
                (RmState::Relinking, RequestView::MakeLinks)
            } else {
                (RmState::Scanning { next: 0 }, RequestView::ScanRoot)
            }
        },
        (RmState::Scanning { next }, ReplyView::Root { entries }) => {
            if next >= count {
                out_of_turn
            } else if is_installed(entries, versions->0[next as int]) {
                (
                    RmState::Asking { next },
                    RequestView::Ask {
                        command: status_query(package_name(versions->0[next as int])),
                    },
                )
            } else {
                (
                    RmState::Finished,
                    stop_with(ErrorView::NotInstalled { version: versions->0[next as int] }),
                )
            }
        },
        (RmState::Asking { next }, ReplyView::Status { success }) => {
            if next >= count {
                out_of_turn
            } else {
                (
                    RmState::Removing { next },
                    RequestView::Perform { plan: removal(versions->0[next as int], success) },
                )
            }
        },
        (RmState::Removing { next }, ReplyView::Done) => {
            if next >= count {
                out_of_turn
            } else {
                after_version(count, next)
            }
        },
        (RmState::Relinking, ReplyView::Done) => (RmState::Finished, stop()),
        _ => out_of_turn,
    }
}

/// The views of a list of versions that may be left out.
pub open spec fn listed(versions: Option<&Vec<String>>) -> Option<Seq<Seq<char>>> {
    match versions {
        Some(list) => Some(texts(list@)),
        None => None,
    }
}

fn out_of_turn() -> (r: (RmState, Request))
    ensures
        r.0 == RmState::Finished,
        r.1@ == stop_with(ErrorView::OutOfTurn),
{
    (RmState::Finished, Request::Stop { failure: Some(RigError::OutOfTurn) })
}

/// Removes `versions`, one step at a time. The caller begins with the
/// state `Start` and the reply `Begin`, does what is asked, and calls again
/// with the state it was given and with what came of the request, until it
/// is told to stop.
pub fn sc_rm(versions: Option<&Vec<String>>, state: RmState, reply: Reply) -> (r: (
    RmState,
    Request,
))
    ensures
        (r.0, r.1@) == rm_step(listed(versions), state, reply@),
{
    let count: usize = match versions {
        Some(list) => list.len(),
        None => 0,
    };
    match state {
        RmState::Start => match reply {
            Reply::Begin => (
                RmState::Escalating,
                Request::Escalate { task: String::from_str(RM_TASK) },
            ),
            _ => out_of_turn(),
        },
        RmState::Finished => out_of_turn(),
        _ => match reply {
            Reply::Failed { error } => (RmState::Finished, Request::Stop { failure: Some(error) }),
            Reply::Done => match state {
                RmState::Escalating => {
                    if versions.is_none() {
                        (RmState::Finished, Request::Stop { failure: None })
                    } else if count == 0 {
                        (RmState::Relinking, Request::MakeLinks)
                    } else {
                        (RmState::Scanning { next: 0 }, Request::ScanRoot)
                    }
                },
                RmState::Removing { next } => {
                    if next >= count {
                        out_of_turn()
                    } else if next + 1 < count {
                        (RmState::Scanning { next: next + 1 }, Request::ScanRoot)
                    } else {
                        (RmState::Relinking, Request::MakeLinks)
                    }
                },
                RmState::Relinking => (RmState::Finished, Request::Stop { failure: None }),
                _ => out_of_turn(),
            },
            Reply::Root { entries } => match (state, versions) {
                (RmState::Scanning { next }, Some(list)) => {
                    if next >= count {
                        out_of_turn()
                    } else {
                        assert(texts(list@)[next as int] == list@[next as int]@);
                        match check_installed(list[next].as_str(), &entries) {
                            Ok(version) => (
                                RmState::Asking { next },
                                Request::Ask {
                                    command: status_command(
                                        get_package_name(version.as_str()).as_str(),
                                    ),
                                },
                            ),
                            Err(error) => (
                                RmState::Finished,
                                Request::Stop { failure: Some(error) },
                            ),
                        }
                    }
                },
                _ => out_of_turn(),
            },
            Reply::Status { success } => match (state, versions) {
                (RmState::Asking { next }, Some(list)) => {
                    if next >= count {
                        out_of_turn()
                    } else {
                        assert(texts(list@)[next as int] == list@[next as int]@);
                        (
                            RmState::Removing { next },
                            Request::Perform { plan: removal_plan(list[next].as_str(), success) },
                        )
                    }
                },
                _ => out_of_turn(),
            },
            _ => out_of_turn(),
        },
    }
}

/// Nothing is touched before privileges are asked for: whatever the caller
/// says at the start, the first request is for privileges, or the
/// operation stops.
pub proof fn rm_begins_with_escalation(versions: Option<Seq<Seq<char>>>, reply: ReplyView)
    ensures
        rm_step(versions, RmState::Start, reply).1 is Escalate || rm_step(
            versions,
            RmState::Start,
            reply,
        ).1 is Stop,
        rm_step(versions, RmState::Start, ReplyView::Begin) == (
            RmState::Escalating,
            RequestView::Escalate { task: RM_TASK@ },
        ),
{
}

/// A failure ends the operation at once, with that failure: whatever was
/// under way, nothing more is asked for.
pub proof fn rm_failure_stops(versions: Option<Seq<Seq<char>>>, state: RmState, error: ErrorView)
    requires
        state != RmState::Start,
        state != RmState::Finished,
    ensures
        rm_step(versions, state, ReplyView::Failed { error }) == (
            RmState::Finished,
            stop_with(error),
        ),
{
}

/// Once the operation is over it stays over.
pub proof fn rm_finished_stays(versions: Option<Seq<Seq<char>>>, reply: ReplyView)
    ensures
        rm_step(versions, RmState::Finished, reply).0 == RmState::Finished,
        rm_step(versions, RmState::Finished, reply).1 is Stop,
{
}

/// The package is removed exactly if the package manager knows it, and the
/// directory is removed either way, after the package.
pub proof fn rm_removes_directory_either_way(version: Seq<char>, registered: bool)
    ensures
        removal(version, registered).last() == (ActionView::RemoveTree {
            path: version_dir(version),
        }),
        removal(version, registered).contains(purge(package_name(version))) <==> registered,
{
    let plan = removal(version, registered);
    if registered {
        assert(plan[0] == purge(package_name(version)));
    }
}

/// The quick links are rebuilt last: the rebuild is asked for only when no
/// version is left to remove, and after it nothing but the end follows.
pub proof fn rm_relinks_last(versions: Option<Seq<Seq<char>>>, state: RmState, reply: ReplyView)
    ensures
        rm_step(versions, state, reply).1 is MakeLinks ==> rm_step(versions, state, reply).0
            == RmState::Relinking && versions is Some && (state == RmState::Escalating
            && versions->0.len() == 0 || state == (RmState::Removing {
            next: (versions->0.len() - 1) as usize,
        })),
        rm_step(versions, RmState::Relinking, reply).1 is Stop,
{
}

} // verus!
