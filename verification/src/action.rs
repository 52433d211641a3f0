//! What the functions of this crate ask their caller to do. A plan is a
//! list of actions, to be carried out in order.

use crate::error::ErrorView;
use crate::error::RigError;
use crate::text::texts;
use vstd::prelude::*;

verus! {

/// One step of a plan. Unless its description says otherwise, a step that
/// fails ends the operation: the steps after it are not carried out.
#[derive(Debug)]
pub enum Action {
    /// Make sure that the process may change the system, for `task`.
    /// Where it may not, nothing of what follows is carried out.
    Escalate { task: String },
    /// Create a symbolic link at `link` that points to `target`. Nothing is
    /// replaced: where something is at `link` already, a link whose target
    /// is gone too, the step fails.
    Symlink { target: String, link: String },
    /// Remove the file or link at `path`, if there is one. A link is
    /// removed whether or not its target exists; where nothing is at
    /// `path`, nothing is done.
    RemoveIfExists { path: String },
    /// Remove the link at `path`, whose target is gone. A failure is
    /// reported as a warning and does not end the operation.
    RemoveDangling { path: String },
    /// Warn that `path` should be a symbolic link and is not; leave it.
    WarnNotLink { path: String },
    /// Add `lines` to the end of the file at `path`.
    Append { path: String, lines: Vec<String> },
    /// Remove the directory at `path` with all it holds, if it exists.
    RemoveTree { path: String },
    /// Run `program` with `args`, without a terminal of its own and without
    /// asking anything; `what` names the command in messages.
    Run { program: String, args: Vec<String>, what: String },
    /// Tell the user something that needs no attention.
    Inform { message: String },
}

/// An `Action` with its texts as character sequences.
pub enum ActionView {
    Escalate { task: Seq<char> },
    Symlink { target: Seq<char>, link: Seq<char> },
    RemoveIfExists { path: Seq<char> },
    RemoveDangling { path: Seq<char> },
    WarnNotLink { path: Seq<char> },
    Append { path: Seq<char>, lines: Seq<Seq<char>> },
    RemoveTree { path: Seq<char> },
    Run { program: Seq<char>, args: Seq<Seq<char>>, what: Seq<char> },
    Inform { message: Seq<char> },
}

impl View for Action {
    type V = ActionView;

    open spec fn view(&self) -> ActionView {
        match self {
            Action::Escalate { task } => ActionView::Escalate { task: task@ },
            Action::Symlink { target, link } => ActionView::Symlink { target: target@, link: link@ },
            Action::RemoveIfExists { path } => ActionView::RemoveIfExists { path: path@ },
            Action::RemoveDangling { path } => ActionView::RemoveDangling { path: path@ },
            Action::WarnNotLink { path } => ActionView::WarnNotLink { path: path@ },
            Action::Append { path, lines } => ActionView::Append {
                path: path@,
                lines: texts(lines@),
            },
            Action::RemoveTree { path } => ActionView::RemoveTree { path: path@ },
            Action::Run { program, args, what } => ActionView::Run {
                program: program@,
                args: texts(args@),
                what: what@,
            },
            Action::Inform { message } => ActionView::Inform { message: message@ },
        }
    }
}

impl DeepView for Action {
    type V = ActionView;

    open spec fn deep_view(&self) -> ActionView {
        self@
    }
}

/// What one step makes of the symbolic links, as a map from each link's
/// path to its target. A link is made only where there is none, else the
/// step fails; a removal takes the link away if there is one; any other
/// step leaves the links as they are.
pub open spec fn links_after_step(step: ActionView, links: Map<Seq<char>, Seq<char>>) -> Option<
    Map<Seq<char>, Seq<char>>,
> {
    match step {
        ActionView::Symlink { target, link } => if links.dom().contains(link) {
            None
        } else {
            Some(links.insert(link, target))
        },
        ActionView::RemoveIfExists { path } => Some(links.remove(path)),
        ActionView::RemoveDangling { path } => Some(links.remove(path)),
        _ => Some(links),
    }
}

/// The symbolic links that a plan leaves behind; none when one of its
/// steps fails.
pub open spec fn links_after(plan: Seq<ActionView>, links: Map<Seq<char>, Seq<char>>) -> Option<
    Map<Seq<char>, Seq<char>>,
>
    decreases plan.len(),
{
    if plan.len() == 0 {
        Some(links)
    } else {
        match links_after(plan.drop_last(), links) {
            Some(before) => links_after_step(plan.last(), before),
            None => None,
        }
    }
}

/// What an operation asks for: the steps to carry out, in order, and the
/// failure to report once they are done, if the operation is to fail.
#[derive(Debug)]
pub struct Plan {
    /// The steps, to be carried out in order.
    pub actions: Vec<Action>,
    /// The failure that the operation ends with after the steps; none when
    /// it succeeds.
    pub failure: Option<RigError>,
}

/// A `Plan` with its texts as character sequences.
pub struct PlanView {
    pub actions: Seq<ActionView>,
    pub failure: Option<ErrorView>,
}

impl View for Plan {
    type V = PlanView;

    open spec fn view(&self) -> PlanView {
        PlanView {
            actions: self.actions.deep_view(),
            failure: match self.failure {
                Some(e) => Some(e@),
                None => None,
            },
        }
    }
}

/// The plan that carries out `actions` and succeeds.
pub open spec fn success(actions: Seq<ActionView>) -> PlanView {
    PlanView { actions, failure: None }
}

/// Whether a step changes the system.
pub open spec fn changes_system(step: ActionView) -> bool {
    !(step is Escalate || step is WarnNotLink || step is Inform)
}

/// Whether a plan asks for privileges before it changes anything.
pub open spec fn is_guarded(plan: Seq<ActionView>) -> bool {
    forall|i: int|
        0 <= i < plan.len() && changes_system(#[trigger] plan[i]) ==> exists|j: int|
            0 <= j < i && plan[j] is Escalate
}

/// A plan that begins by asking for privileges changes nothing before.
pub proof fn lemma_guarded_by_first_step(plan: Seq<ActionView>)
    requires
        plan.len() > 0,
        plan[0] is Escalate,
    ensures
        is_guarded(plan),
{
    assert forall|i: int| 0 <= i < plan.len() && changes_system(#[trigger] plan[i]) implies exists|
        j: int,
    |
        0 <= j < i && plan[j] is Escalate by {
        assert(plan[0] is Escalate);
    }
}

} // verus!
