//! The default version: a pointer beside the installed versions, and two
//! commands that lead through it.

use crate::action::links_after;
use crate::action::Action;
use crate::action::ActionView;
use crate::error::ErrorView;
use crate::error::RigError;
use crate::links::CURRENT_BINARY;
use crate::links::CURRENT_SCRIPT_BINARY;
use crate::links::RSCRIPT_COMMAND;
use crate::links::R_COMMAND;
use crate::paths::binary_path;
use crate::paths::file_name;
use crate::paths::get_version_dir;
use crate::paths::is_entry_name;
use crate::paths::joined;
use crate::paths::lemma_version_paths;
use crate::paths::path_file_name;
use crate::paths::version_dir;
use crate::paths::BINARY;
use crate::paths::R_CUR;
use crate::paths::SCRIPT_BINARY;
use crate::registry::check_installed;
use crate::registry::is_installed;
use crate::registry::RootEntry;
use vstd::prelude::*;
use vstd::string::StringExecFns;

verus! {

/// What privileges are asked for before the default version is set.
pub const SET_DEFAULT_TASK: &'static str = "setting the default R version";

/// The plan that makes `version` the default. Privileges are asked for
/// before anything is changed. Then the pointer is made anew,
/// and so are the two commands, each as a link to a path below the
/// pointer, never to the version itself.
pub open spec fn default_plan(version: Seq<char>) -> Seq<ActionView> {
    seq![
        ActionView::Escalate { task: SET_DEFAULT_TASK@ },
        ActionView::RemoveIfExists { path: R_CUR@ },
        ActionView::Symlink { target: version_dir(version), link: R_CUR@ },
        ActionView::RemoveIfExists { path: R_COMMAND@ },
        ActionView::Symlink { target: CURRENT_BINARY@, link: R_COMMAND@ },
        ActionView::RemoveIfExists { path: RSCRIPT_COMMAND@ },
        ActionView::Symlink { target: CURRENT_SCRIPT_BINARY@, link: RSCRIPT_COMMAND@ },
    ]
}

/// Plans making `ver` the default version; `root` is a scan of the
/// installation root. Fails with `NotInstalled` exactly if `ver` is not
/// installed.
pub fn sc_set_default(ver: &str, root: &Vec<RootEntry>) -> (r: Result<Vec<Action>, RigError>)
    ensures
        match r {
            Ok(plan) => is_installed(root.deep_view(), ver@) && plan.deep_view() == default_plan(
                ver@,
            ),
            Err(e) => !is_installed(root.deep_view(), ver@) && e@ == (ErrorView::NotInstalled {
                version: ver@,
            }),
        },
{
    let ver = check_installed(ver, root)?;
    let mut plan: Vec<Action> = Vec::new();
    plan.push(Action::Escalate { task: String::from_str(SET_DEFAULT_TASK) });
    plan.push(Action::RemoveIfExists { path: String::from_str(R_CUR) });
    plan.push(
        Action::Symlink { target: get_version_dir(ver.as_str()), link: String::from_str(R_CUR) },
    );
    plan.push(Action::RemoveIfExists { path: String::from_str(R_COMMAND) });
    plan.push(
        Action::Symlink {
            target: String::from_str(CURRENT_BINARY),
            link: String::from_str(R_COMMAND),
        },
    );
    plan.push(Action::RemoveIfExists { path: String::from_str(RSCRIPT_COMMAND) });
    plan.push(
        Action::Symlink {
            target: String::from_str(CURRENT_SCRIPT_BINARY),
            link: String::from_str(RSCRIPT_COMMAND),
        },
    );
    assert(plan.deep_view() =~= default_plan(ver@));
    Ok(plan)
}

/// The version that the pointer names, given where it points: the name
/// that its target ends in. There is none without a pointer.
pub open spec fn default_version(pointer: Option<Seq<char>>) -> Option<Seq<char>> {
    match pointer {
        Some(target) => file_name(target),
        None => None,
    }
}

/// The default version. `pointer` is the target of the pointer to the
/// default version, none when there is no pointer. It never fails: without
/// a pointer there is no default version.
pub fn sc_get_default(pointer: Option<&str>) -> (r: Result<Option<String>, RigError>)
    ensures
        r matches Ok(v) && v.deep_view() == default_version(pointer.deep_view()),
{
    match pointer {
        Some(target) => Ok(path_file_name(target)),
        None => Ok(None),
    }
}

/// Whether a default version has to be chosen: true exactly if the pointer
/// names none.
pub fn default_is_missing(pointer: Option<&str>) -> (r: bool)
    ensures
        r == (default_version(pointer.deep_view()) is None),
{
    match sc_get_default(pointer) {
        Ok(Some(_)) => false,
        _ => true,
    }
}

/// Where `path` leads when `link` is a link to `target`: a path below the
/// link leads below the target, and any other path to itself.
pub open spec fn through_link(path: Seq<char>, link: Seq<char>, target: Seq<char>) -> Seq<char> {
    if path.len() > link.len() && path.subrange(0, link.len() as int) == link && path[link.len() as int]
        == '/' {
        target + path.subrange(link.len() as int, path.len() as int)
    } else {
        path
    }
}

/// Setting the default and asking for it gives the version back. The
/// plan for `version` can be carried out whatever links there were before,
/// and once it is, the pointer leads to the version's directory and names
/// the version, and each command leads through the pointer to the
/// version's own binary.
pub proof fn default_is_what_was_set(version: Seq<char>, links: Map<Seq<char>, Seq<char>>)
    requires
        is_entry_name(version),
    ensures
        links_after(default_plan(version), links) is Some,
        ({
            let after = links_after(default_plan(version), links)->0;
            &&& after.dom().contains(R_CUR@)
            &&& after.dom().contains(R_COMMAND@)
            &&& after.dom().contains(RSCRIPT_COMMAND@)
            &&& after[R_CUR@] == version_dir(version)
            &&& default_version(Some(after[R_CUR@])) == Some(version)
            &&& through_link(after[R_COMMAND@], R_CUR@, after[R_CUR@]) == binary_path(version)
            &&& through_link(after[RSCRIPT_COMMAND@], R_CUR@, after[R_CUR@]) == joined(
                version_dir(version),
                SCRIPT_BINARY@,
            )
        }),
{
    reveal_strlit("/opt/R/current");
    reveal_strlit("/usr/local/bin/R");
    reveal_strlit("/usr/local/bin/Rscript");
    reveal_strlit("/opt/R/current/bin/R");
    reveal_strlit("/opt/R/current/bin/Rscript");
    reveal_strlit("bin/R");
    reveal_strlit("bin/Rscript");
    lemma_version_paths(version);
    let plan = default_plan(version);
    let s5 = plan.drop_last();
    let s4 = s5.drop_last();
    let s3 = s4.drop_last();
    let s2 = s3.drop_last();
    let s1 = s2.drop_last();
    let s0 = s1.drop_last();
    assert(plan.last() == plan[6] && s5.last() == plan[5] && s4.last() == plan[4] && s3.last()
        == plan[3] && s2.last() == plan[2] && s1.last() == plan[1] && s0.last() == plan[0]);
    assert(R_CUR@.len() == 14 && R_COMMAND@.len() == 16 && RSCRIPT_COMMAND@.len() == 22);
    assert(links_after(s0, links) == Some(links)) by {
        assert(links_after(s0.drop_last(), links) == Some(links));
    }
    let l1 = links.remove(R_CUR@);
    assert(links_after(s1, links) == Some(l1));
    let l2 = l1.insert(R_CUR@, version_dir(version));
    assert(links_after(s2, links) == Some(l2));
    let l3 = l2.remove(R_COMMAND@);
    assert(links_after(s3, links) == Some(l3));
    let l4 = l3.insert(R_COMMAND@, CURRENT_BINARY@);
    assert(links_after(s4, links) == Some(l4));
    let l5 = l4.remove(RSCRIPT_COMMAND@);
    assert(links_after(s5, links) == Some(l5));
    let after = l5.insert(RSCRIPT_COMMAND@, CURRENT_SCRIPT_BINARY@);
    assert(links_after(plan, links) == Some(after));
    let dir = version_dir(version);
    assert(version.contains(version.last()));
    assert(CURRENT_BINARY@.subrange(0, 14) =~= R_CUR@);
    assert(CURRENT_BINARY@.subrange(14, 20) =~= seq!['/'] + BINARY@);
    assert(dir + (seq!['/'] + BINARY@) =~= dir + seq!['/'] + BINARY@);
    assert(CURRENT_SCRIPT_BINARY@.subrange(0, 14) =~= R_CUR@);
    assert(CURRENT_SCRIPT_BINARY@.subrange(14, 26) =~= seq!['/'] + SCRIPT_BINARY@);
    assert(dir.last() == version.last());
    assert(SCRIPT_BINARY@[0] == 'b');
    assert(joined(dir, SCRIPT_BINARY@) =~= dir + (seq!['/'] + SCRIPT_BINARY@));
}

/// Setting the default changes nothing before it has asked for privileges.
pub proof fn default_asks_for_privileges_first(version: Seq<char>)
    ensures
        crate::action::is_guarded(default_plan(version)),
{
    crate::action::lemma_guarded_by_first_step(default_plan(version));
}

} // verus!
