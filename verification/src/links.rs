//! The links in the system's binary directory: one quick link per
//! installed version, the pointer to the default version, and the two
//! commands that run whatever the pointer points to.

use crate::action::Action;
use crate::action::ActionView;
use crate::action::Plan;
use crate::error::ErrorView;
use crate::error::RigError;
use crate::paths::binary_path;
use crate::paths::is_entry_name;
use crate::paths::get_version_dir;
use crate::paths::join;
use crate::paths::joined;
use crate::paths::BINARY;
use crate::paths::BIN_DIR;
use crate::pattern::blocked;
use crate::pattern::is_match;
use crate::pattern::regex_accepts;
use crate::pattern::regex_is_match;
use crate::registry::installed;
use crate::registry::sc_get_list;
use crate::registry::RootEntry;
use crate::text::concat2;
use crate::text::text_eq;
use crate::text::texts;
use vstd::prelude::*;
use vstd::string::StringExecFns;

verus! {

/// The names of the quick links: `R-` and a version of three numbers, or
/// `R-` and the name of a release channel.
pub const QUICK_LINK_PATTERN: &'static str =
    "^R-([0-9]+[.][0-9]+[.][0-9]+|oldrel|next|release|devel)$";

/// What privileges are asked for before the quick links are rebuilt.
pub const MAKE_LINKS_TASK: &'static str = "making R-* quick links";

/// What the name of every quick link begins with.
pub const QUICK_LINK_PREFIX: &'static str = "R-";

/// The command that runs the default version.
pub const R_COMMAND: &'static str = "/usr/local/bin/R";

/// The command that runs the script runner of the default version.
pub const RSCRIPT_COMMAND: &'static str = "/usr/local/bin/Rscript";

/// The R binary of whichever version the pointer points to.
pub const CURRENT_BINARY: &'static str = "/opt/R/current/bin/R";

/// The script runner of whichever version the pointer points to.
pub const CURRENT_SCRIPT_BINARY: &'static str = "/opt/R/current/bin/Rscript";

/// One entry of the binary directory, as a scan found it.
#[derive(Debug)]
pub struct LinkEntry {
    /// The entry's name.
    pub name: String,
    /// Where the entry points; none when it is no symbolic link.
    pub target: Option<String>,
    /// For a symbolic link: whether what it points to exists.
    pub target_exists: bool,
}

/// A `LinkEntry` with its texts as character sequences.
pub struct LinkEntryView {
    pub name: Seq<char>,
    pub target: Option<Seq<char>>,
    pub target_exists: bool,
}

impl View for LinkEntry {
    type V = LinkEntryView;

    open spec fn view(&self) -> LinkEntryView {
        LinkEntryView {
            name: self.name@,
            target: match self.target {
                Some(t) => Some(t@),
                None => None,
            },
            target_exists: self.target_exists,
        }
    }
}

impl DeepView for LinkEntry {
    type V = LinkEntryView;

    open spec fn deep_view(&self) -> LinkEntryView {
        self@
    }
}

/// Whether a name is that of a quick link.
pub open spec fn is_quick_link(name: Seq<char>) -> bool {
    regex_is_match(QUICK_LINK_PATTERN@, name)
}

/// `is_quick_link` as a predicate.
pub open spec fn quick_links() -> spec_fn(Seq<char>) -> bool {
    |name: Seq<char>| is_quick_link(name)
}

/// Whether `name` is that of a quick link. Fails with `BadPattern`
/// exactly if the pattern for quick links is not accepted.
pub fn is_quick_link_name(name: &str) -> (r: Result<bool, RigError>)
    ensures
        match r {
            Ok(b) => regex_accepts(QUICK_LINK_PATTERN@) && b == is_quick_link(name@),
            Err(e) => !regex_accepts(QUICK_LINK_PATTERN@) && e@ == ErrorView::BadPattern,
        },
{
    is_match(QUICK_LINK_PATTERN, name)
}

/// Whether the directory has an entry under `name`: a file or a link,
/// and a link whether or not its target exists.
pub open spec fn is_present(dir: Seq<LinkEntryView>, name: Seq<char>) -> bool {
    exists|i: int| 0 <= i < dir.len() && #[trigger] dir[i].name == name
}

/// The name of a version's quick link.
pub open spec fn quick_link_name(version: Seq<char>) -> Seq<char> {
    QUICK_LINK_PREFIX@ + version
}

/// The step that gives a version its quick link, a link to the version's R
/// binary; none when the directory has an entry under the link's name, of
/// whatever kind: what is there is left untouched.
pub open spec fn creation(version: Seq<char>, dir: Seq<LinkEntryView>) -> Option<ActionView> {
    if is_present(dir, quick_link_name(version)) {
        None
    } else {
        Some(
            ActionView::Symlink {
                target: binary_path(version),
                link: joined(BIN_DIR@, quick_link_name(version)),
            },
        )
    }
}

/// The steps that give each of `versions` its quick link, in their order.
pub open spec fn creations(versions: Seq<Seq<char>>, dir: Seq<LinkEntryView>) -> Seq<ActionView>
    decreases versions.len(),
{
    if versions.len() == 0 {
        Seq::<ActionView>::empty()
    } else {
        let before = creations(versions.drop_last(), dir);
        match creation(versions.last(), dir) {
            Some(step) => before.push(step),
            None => before,
        }
    }
}

/// What is done about one entry of the directory. An entry that is not
/// named like a quick link is left alone. One that is, but is no link,
/// gets a warning. A link whose target is gone is removed; a link whose
/// target exists is left alone.
pub open spec fn cleanup(e: LinkEntryView, named_like_quick_link: bool) -> Option<ActionView> {
    if !named_like_quick_link {
        None
    } else if e.target is None {
        Some(ActionView::WarnNotLink { path: joined(BIN_DIR@, e.name) })
    } else if !e.target_exists {
        Some(ActionView::RemoveDangling { path: joined(BIN_DIR@, e.name) })
    } else {
        None
    }
}

/// What is done about the entries of the directory, in their order.
pub open spec fn cleanups(dir: Seq<LinkEntryView>, quick: spec_fn(Seq<char>) -> bool) -> Seq<
    ActionView,
>
    decreases dir.len(),
{
    if dir.len() == 0 {
        Seq::<ActionView>::empty()
    } else {
        let before = cleanups(dir.drop_last(), quick);
        match cleanup(dir.last(), quick(dir.last().name)) {
            Some(step) => before.push(step),
            None => before,
        }
    }
}

/// The plan of a rebuild: first a quick link for every version that has
/// none, then the clean-up of the directory as the scan found it.
pub open spec fn link_plan(
    versions: Seq<Seq<char>>,
    dir: Seq<LinkEntryView>,
    quick: spec_fn(Seq<char>) -> bool,
) -> Seq<ActionView> {
    creations(versions, dir) + cleanups(dir, quick)
}

fn has_present(dir: &Vec<LinkEntry>, name: &str) -> (r: bool)
    ensures
        r == is_present(dir.deep_view(), name@),
{
    let mut i: usize = 0;
    while i < dir.len()
        invariant
            i <= dir.len(),
            forall|k: int| 0 <= k < i ==> #[trigger] dir.deep_view()[k].name != name@,
        decreases dir.len() - i,
    {
        let e = &dir[i];
        assert(dir.deep_view()[i as int] == e@);
        if text_eq(e.name.as_str(), name) {
            assert(dir.deep_view()[i as int].name == name@);
            return true;
        }
        i += 1;
    }
    false
}

/// The step that gives `version` its quick link, if it has none.
pub fn link_creation(version: &str, dir: &Vec<LinkEntry>) -> (r: Option<Action>)
    ensures
        r.deep_view() == creation(version@, dir.deep_view()),
{
    let name = concat2(QUICK_LINK_PREFIX, version);
    if has_present(dir, name.as_str()) {
        None
    } else {
        let target = join(get_version_dir(version).as_str(), BINARY);
        Some(Action::Symlink { target, link: join(BIN_DIR, name.as_str()) })
    }
}

/// The steps that give each of `versions` its quick link.
pub fn link_creations(versions: &Vec<String>, dir: &Vec<LinkEntry>) -> (r: Vec<Action>)
    ensures
        r.deep_view() == creations(texts(versions@), dir.deep_view()),
{
    let mut plan: Vec<Action> = Vec::new();
    let mut i: usize = 0;
    let ghost all = texts(versions@);
    assert(all.take(0) =~= Seq::<Seq<char>>::empty());
    assert(plan.deep_view() =~= Seq::<ActionView>::empty());
    while i < versions.len()
        invariant
            i <= versions.len(),
            all == texts(versions@),
            plan.deep_view() == creations(all.take(i as int), dir.deep_view()),
        decreases versions.len() - i,
    {
        proof {
            assert(all.take(i + 1).drop_last() =~= all.take(i as int));
            assert(all.take(i + 1).last() == versions@[i as int]@);
        }
        match link_creation(versions[i].as_str(), dir) {
            Some(step) => {
                let ghost before = plan.deep_view();
                plan.push(step);
                assert(plan.deep_view() =~= before.push(step@));
            },
            None => {},
        }
        i += 1;
    }
    assert(all.take(i as int) =~= all);
    plan
}

/// What is done about one entry of the directory, given whether its name
/// is that of a quick link.
pub fn link_cleanup(entry: &LinkEntry, named_like_quick_link: bool) -> (r: Option<Action>)
    ensures
        r.deep_view() == cleanup(entry@, named_like_quick_link),
{
    if !named_like_quick_link {
        None
    } else if entry.target.is_none() {
        Some(Action::WarnNotLink { path: join(BIN_DIR, entry.name.as_str()) })
    } else if !entry.target_exists {
        Some(Action::RemoveDangling { path: join(BIN_DIR, entry.name.as_str()) })
    } else {
        None
    }
}

/// The plan of a rebuild as it is carried out: privileges are asked for
/// before anything is changed.
pub open spec fn rebuild_plan(
    versions: Seq<Seq<char>>,
    dir: Seq<LinkEntryView>,
    quick: spec_fn(Seq<char>) -> bool,
) -> Seq<ActionView> {
    seq![ActionView::Escalate { task: MAKE_LINKS_TASK@ }] + link_plan(versions, dir, quick)
}

/// Plans a rebuild of the quick links. `root` is a scan of the
/// installation root and `dir` a scan of the binary directory.
///
/// The plan asks for privileges, gives every installed version that has no
/// quick link one, and then removes the quick links whose targets are
/// gone. Links that exist are never replaced or redirected. Only where the
/// directory has entries and the pattern for quick links is not accepted,
/// the plan creates the links and then fails with `BadPattern`; it fails in
/// no other way.
pub fn sc_system_make_links(root: &Vec<RootEntry>, dir: &Vec<LinkEntry>) -> (r: Plan)
    ensures
        r@.failure is Some <==> blocked(QUICK_LINK_PATTERN@, dir@.len()),
        regex_accepts(QUICK_LINK_PATTERN@) ==> r@.failure is None,
        r@.failure is None ==> r@.actions == rebuild_plan(
            installed(root.deep_view()),
            dir.deep_view(),
            quick_links(),
        ),
        r@.failure is Some ==> r@.failure == Some(ErrorView::BadPattern) && r@.actions == seq![
            ActionView::Escalate { task: MAKE_LINKS_TASK@ },
        ] + creations(installed(root.deep_view()), dir.deep_view()),
{
    let vers = sc_get_list(root);
    let mut made: Vec<Action> = Vec::new();
    made.push(Action::Escalate { task: String::from_str(MAKE_LINKS_TASK) });
    let mut links = link_creations(&vers, dir);
    let ghost head = made.deep_view();
    let ghost tail = links.deep_view();
    made.append(&mut links);
    assert(made.deep_view() =~= head + tail);
    assert(head =~= seq![ActionView::Escalate { task: MAKE_LINKS_TASK@ }]);
    let mut cleaning: Vec<Action> = Vec::new();
    let ghost all = dir.deep_view();
    let mut i: usize = 0;
    assert(all.take(0) =~= Seq::<LinkEntryView>::empty());
    assert(cleaning.deep_view() =~= Seq::<ActionView>::empty());
    while i < dir.len()
        invariant
            i <= dir.len(),
            all == dir.deep_view(),
            i > 0 ==> regex_accepts(QUICK_LINK_PATTERN@),
            made.deep_view() == seq![ActionView::Escalate { task: MAKE_LINKS_TASK@ }] + creations(
                installed(root.deep_view()),
                all,
            ),
            cleaning.deep_view() == cleanups(all.take(i as int), quick_links()),
        decreases dir.len() - i,
    {
        let e = &dir[i];
        proof {
            assert(all.take(i + 1).drop_last() =~= all.take(i as int));
            assert(all.take(i + 1).last() == e@);
        }
        let quick = match is_quick_link_name(e.name.as_str()) {
            Ok(b) => b,
            Err(e) => {
                return Plan { actions: made, failure: Some(e) };
            },
        };
        match link_cleanup(e, quick) {
            Some(step) => {
                let ghost before = cleaning.deep_view();
                cleaning.push(step);
                assert(cleaning.deep_view() =~= before.push(step@));
            },
            None => {},
        }
        i += 1;
    }
    assert(all.take(i as int) =~= all);
    let mut actions = made;
    let ghost first = actions.deep_view();
    let ghost second = cleaning.deep_view();
    actions.append(&mut cleaning);
    assert(actions.deep_view() =~= first + second);
    assert(first + second =~= rebuild_plan(installed(root.deep_view()), all, quick_links()));
    Plan { actions, failure: None }
}

/// Whether a rebuild leaves an entry in place: it removes the links that
/// are named like quick links and whose targets are gone, and nothing else.
pub open spec fn survives(e: LinkEntryView, quick: spec_fn(Seq<char>) -> bool) -> bool {
    !(quick(e.name) && e.target is Some && !e.target_exists)
}

/// The entries that a rebuild leaves in place, in their order.
pub open spec fn survivors(dir: Seq<LinkEntryView>, quick: spec_fn(Seq<char>) -> bool) -> Seq<
    LinkEntryView,
>
    decreases dir.len(),
{
    if dir.len() == 0 {
        Seq::<LinkEntryView>::empty()
    } else if survives(dir.last(), quick) {
        survivors(dir.drop_last(), quick).push(dir.last())
    } else {
        survivors(dir.drop_last(), quick)
    }
}

/// The quick link that a rebuild makes for a version: a link to the
/// version's R binary, which exists because the version is installed.
pub open spec fn new_link(version: Seq<char>) -> LinkEntryView {
    LinkEntryView {
        name: quick_link_name(version),
        target: Some(binary_path(version)),
        target_exists: true,
    }
}

/// The entries that a rebuild adds, in the order of the versions.
pub open spec fn new_links(versions: Seq<Seq<char>>, dir: Seq<LinkEntryView>) -> Seq<LinkEntryView>
    decreases versions.len(),
{
    if versions.len() == 0 {
        Seq::<LinkEntryView>::empty()
    } else if creation(versions.last(), dir) is Some {
        new_links(versions.drop_last(), dir).push(new_link(versions.last()))
    } else {
        new_links(versions.drop_last(), dir)
    }
}

/// The binary directory after a rebuild whose steps all succeeded: what
/// the rebuild left in place, and behind it what the rebuild added.
pub open spec fn rebuilt(
    versions: Seq<Seq<char>>,
    dir: Seq<LinkEntryView>,
    quick: spec_fn(Seq<char>) -> bool,
) -> Seq<LinkEntryView> {
    survivors(dir, quick) + new_links(versions, dir)
}

/// The binary directory after `n` rebuilds in a row.
pub open spec fn rebuilt_times(
    versions: Seq<Seq<char>>,
    dir: Seq<LinkEntryView>,
    quick: spec_fn(Seq<char>) -> bool,
    n: nat,
) -> Seq<LinkEntryView>
    decreases n,
{
    if n == 0 {
        dir
    } else {
        rebuilt(versions, rebuilt_times(versions, dir, quick, (n - 1) as nat), quick)
    }
}

proof fn lemma_survivors(dir: Seq<LinkEntryView>, quick: spec_fn(Seq<char>) -> bool)
    ensures
        forall|i: int|
            0 <= i < survivors(dir, quick).len() ==> survives(
                #[trigger] survivors(dir, quick)[i],
                quick,
            ) && dir.contains(survivors(dir, quick)[i]),
        forall|i: int|
            0 <= i < dir.len() && survives(dir[i], quick) ==> survivors(dir, quick).contains(
                #[trigger] dir[i],
            ),
        (forall|i: int| 0 <= i < dir.len() ==> survives(#[trigger] dir[i], quick)) ==> survivors(
            dir,
            quick,
        ) == dir,
    decreases dir.len(),
{
    if dir.len() > 0 {
        let before = dir.drop_last();
        lemma_survivors(before, quick);
        let s = survivors(dir, quick);
        let sb = survivors(before, quick);
        assert forall|i: int| 0 <= i < s.len() implies survives(#[trigger] s[i], quick)
            && dir.contains(s[i]) by {
            if i < sb.len() {
                assert(s[i] == sb[i]);
                let k = choose|k: int| 0 <= k < before.len() && before[k] == sb[i];
                assert(dir[k] == s[i]);
            } else {
                assert(dir[dir.len() - 1] == s[i]);
            }
        }
        assert forall|i: int| 0 <= i < dir.len() && survives(dir[i], quick) implies s.contains(
            #[trigger] dir[i],
        ) by {
            if i < before.len() {
                assert(before[i] == dir[i]);
                let k = choose|k: int| 0 <= k < sb.len() && sb[k] == before[i];
                assert(s[k] == dir[i]);
            } else {
                assert(s[s.len() - 1] == dir[i]);
            }
        }
        if forall|i: int| 0 <= i < dir.len() ==> survives(#[trigger] dir[i], quick) {
            assert forall|i: int| 0 <= i < before.len() implies survives(
                #[trigger] before[i],
                quick,
            ) by {
                assert(before[i] == dir[i]);
            }
            assert(s =~= dir);
        }
    }
}

proof fn lemma_new_links(versions: Seq<Seq<char>>, dir: Seq<LinkEntryView>)
    ensures
        forall|i: int|
            0 <= i < new_links(versions, dir).len() ==> exists|k: int|
                0 <= k < versions.len() && #[trigger] new_links(versions, dir)[i] == new_link(
                    versions[k],
                ),
        forall|k: int|
            0 <= k < versions.len() ==> is_present(dir, quick_link_name(#[trigger] versions[k]))
                || new_links(versions, dir).contains(new_link(versions[k])),
        new_links(versions, dir).len() == creations(versions, dir).len(),
    decreases versions.len(),
{
    if versions.len() > 0 {
        let before = versions.drop_last();
        lemma_new_links(before, dir);
        let n = new_links(versions, dir);
        let nb = new_links(before, dir);
        assert forall|i: int| 0 <= i < n.len() implies exists|k: int|
            0 <= k < versions.len() && #[trigger] n[i] == new_link(versions[k]) by {
            if i < nb.len() {
                let k = choose|k: int| 0 <= k < before.len() && nb[i] == new_link(before[k]);
                assert(n[i] == new_link(versions[k]));
            } else {
                assert(n[i] == new_link(versions[versions.len() - 1]));
            }
        }
        assert forall|k: int| 0 <= k < versions.len() implies is_present(
            dir,
            quick_link_name(#[trigger] versions[k]),
        ) || n.contains(new_link(versions[k])) by {
            if k < before.len() {
                assert(before[k] == versions[k]);
                if nb.contains(new_link(before[k])) {
                    let j = choose|j: int| 0 <= j < nb.len() && nb[j] == new_link(before[k]);
                    assert(n[j] == new_link(versions[k]));
                }
            } else if creation(versions.last(), dir) is Some {
                assert(n[n.len() - 1] == new_link(versions[k]));
            }
        }
    }
}

proof fn lemma_nothing_to_create(versions: Seq<Seq<char>>, dir: Seq<LinkEntryView>)
    requires
        forall|k: int| 0 <= k < versions.len() ==> is_present(dir, quick_link_name(#[trigger] versions[k])),
    ensures
        creations(versions, dir) == Seq::<ActionView>::empty(),
        new_links(versions, dir) == Seq::<LinkEntryView>::empty(),
    decreases versions.len(),
{
    if versions.len() > 0 {
        let before = versions.drop_last();
        assert forall|k: int| 0 <= k < before.len() implies is_present(
            dir,
            quick_link_name(#[trigger] before[k]),
        ) by {
            assert(before[k] == versions[k]);
        }
        lemma_nothing_to_create(before, dir);
        assert(versions.last() == versions[versions.len() - 1]);
    }
}

proof fn lemma_cleanups_of_survivors(dir: Seq<LinkEntryView>, quick: spec_fn(Seq<char>) -> bool)
    requires
        forall|i: int| 0 <= i < dir.len() ==> survives(#[trigger] dir[i], quick),
    ensures
        forall|i: int|
            0 <= i < cleanups(dir, quick).len() ==> #[trigger] cleanups(
                dir,
                quick,
            )[i] is WarnNotLink,
        (forall|i: int| 0 <= i < dir.len() && quick(dir[i].name) ==> (#[trigger] dir[i]).target is Some)
            ==> cleanups(dir, quick) == Seq::<ActionView>::empty(),
    decreases dir.len(),
{
    if dir.len() > 0 {
        let before = dir.drop_last();
        assert forall|i: int| 0 <= i < before.len() implies survives(#[trigger] before[i], quick) by {
            assert(before[i] == dir[i]);
        }
        lemma_cleanups_of_survivors(before, quick);
        assert(dir.last() == dir[dir.len() - 1]);
        if forall|i: int| 0 <= i < dir.len() && quick(dir[i].name) ==> (#[trigger] dir[i]).target is Some {
            assert forall|i: int| 0 <= i < before.len() && quick(before[i].name) implies (
            #[trigger] before[i]).target is Some by {
                assert(before[i] == dir[i]);
            }
        }
    }
}

/// The step that makes a link as the directory then holds it.
pub open spec fn making(e: LinkEntryView) -> ActionView {
    ActionView::Symlink { target: e.target->0, link: joined(BIN_DIR@, e.name) }
}

/// The entries that a rebuild adds are those that its plan creates: one
/// for each step of the plan, in the same order, with the same name and
/// the same target. And the entries that it takes away are those whose
/// removal the plan holds.
pub proof fn plan_and_directory_agree(
    versions: Seq<Seq<char>>,
    dir: Seq<LinkEntryView>,
    quick: spec_fn(Seq<char>) -> bool,
)
    ensures
        new_links(versions, dir).len() == creations(versions, dir).len(),
        forall|k: int|
            0 <= k < creations(versions, dir).len() ==> #[trigger] creations(versions, dir)[k]
                == making(new_links(versions, dir)[k]),
        forall|i: int|
            0 <= i < dir.len() ==> (!survives(#[trigger] dir[i], quick) <==> cleanup(
                dir[i],
                quick(dir[i].name),
            ) == Some(ActionView::RemoveDangling { path: joined(BIN_DIR@, dir[i].name) })),
    decreases versions.len(),
{
    if versions.len() > 0 {
        plan_and_directory_agree(versions.drop_last(), dir, quick);
    }
}

/// Whether no quick link that is due is taken away: no entry that the
/// rebuild removes stands under the name of a version's quick link.
pub open spec fn due_links_stay(
    versions: Seq<Seq<char>>,
    dir: Seq<LinkEntryView>,
    quick: spec_fn(Seq<char>) -> bool,
) -> bool {
    forall|i: int, k: int|
        #![trigger dir[i], versions[k]]
        0 <= i < dir.len() && 0 <= k < versions.len() && dir[i].name == quick_link_name(
            versions[k],
        ) ==> survives(dir[i], quick)
}

/// A second rebuild has nothing left to do. After a rebuild whose steps
/// all succeeded, with the installed versions and the targets unchanged,
/// the next plan creates nothing and removes nothing, so the directory
/// stays as it is. All that the next plan can hold are the warnings about
/// entries that are named like quick links and are no links; where the
/// directory had no such entry, the plan is empty.
///
/// This holds where the first rebuild takes no quick link away that is
/// due. Where the quick link of an installed version is dangling, the
/// first rebuild removes it and only the second makes it anew.
pub proof fn second_rebuild_does_nothing(
    versions: Seq<Seq<char>>,
    dir: Seq<LinkEntryView>,
    quick: spec_fn(Seq<char>) -> bool,
)
    requires
        due_links_stay(versions, dir, quick),
    ensures
        creations(versions, rebuilt(versions, dir, quick)) == Seq::<ActionView>::empty(),
        forall|i: int|
            0 <= i < link_plan(versions, rebuilt(versions, dir, quick), quick).len()
                ==> #[trigger] link_plan(
                versions,
                rebuilt(versions, dir, quick),
                quick,
            )[i] is WarnNotLink,
        rebuilt(versions, rebuilt(versions, dir, quick), quick) == rebuilt(versions, dir, quick),
        (forall|i: int| 0 <= i < dir.len() && quick(dir[i].name) ==> (#[trigger] dir[i]).target is Some)
            ==> link_plan(versions, rebuilt(versions, dir, quick), quick) == Seq::<
            ActionView,
        >::empty(),
{
    let kept = survivors(dir, quick);
    let added = new_links(versions, dir);
    let after = rebuilt(versions, dir, quick);
    lemma_survivors(dir, quick);
    lemma_new_links(versions, dir);
    assert forall|k: int| 0 <= k < versions.len() implies is_present(
        after,
        quick_link_name(#[trigger] versions[k]),
    ) by {
        let name = quick_link_name(versions[k]);
        if is_present(dir, name) {
            let i = choose|i: int| 0 <= i < dir.len() && #[trigger] dir[i].name == name;
            assert(dir[i].name == quick_link_name(versions[k]));
            assert(survives(dir[i], quick));
            let j = choose|j: int| 0 <= j < kept.len() && kept[j] == dir[i];
            assert(after[j] == dir[i]);
            assert(after[j].name == name);
        } else {
            let j = choose|j: int| 0 <= j < added.len() && added[j] == new_link(versions[k]);
            assert(after[kept.len() + j] == new_link(versions[k]));
            assert(after[kept.len() + j].name == name);
        }
    }
    lemma_nothing_to_create(versions, after);
    assert forall|i: int| 0 <= i < after.len() implies survives(#[trigger] after[i], quick) by {
        if i < kept.len() {
            assert(after[i] == kept[i]);
        } else {
            assert(after[i] == added[i - kept.len()]);
        }
    }
    lemma_cleanups_of_survivors(after, quick);
    lemma_survivors(after, quick);
    assert(link_plan(versions, after, quick) =~= cleanups(after, quick));
    assert(rebuilt(versions, after, quick) =~= after);
    if forall|i: int| 0 <= i < dir.len() && quick(dir[i].name) ==> (#[trigger] dir[i]).target is Some {
        assert forall|i: int| 0 <= i < after.len() && quick(after[i].name) implies (
        #[trigger] after[i]).target is Some by {
            if i < kept.len() {
                assert(after[i] == kept[i]);
                let k = choose|k: int| 0 <= k < dir.len() && dir[k] == kept[i];
            } else {
                assert(after[i] == added[i - kept.len()]);
            }
        }
    }
}

/// A quick link whose target is gone is removed by the next rebuild: the
/// plan holds its removal, and the directory after the rebuild holds the
/// link no more.
pub proof fn dangling_quick_link_is_removed(
    versions: Seq<Seq<char>>,
    dir: Seq<LinkEntryView>,
    quick: spec_fn(Seq<char>) -> bool,
    i: int,
)
    requires
        0 <= i < dir.len(),
        quick(dir[i].name),
        dir[i].target is Some,
        !dir[i].target_exists,
    ensures
        link_plan(versions, dir, quick).contains(
            ActionView::RemoveDangling { path: joined(BIN_DIR@, dir[i].name) },
        ),
        !rebuilt(versions, dir, quick).contains(dir[i]),
{
    let step = ActionView::RemoveDangling { path: joined(BIN_DIR@, dir[i].name) };
    lemma_cleanups_hold(dir, quick, i);
    let c = cleanups(dir, quick);
    let k = choose|k: int| 0 <= k < c.len() && c[k] == step;
    assert(link_plan(versions, dir, quick)[creations(versions, dir).len() + k] == step);
    lemma_survivors(dir, quick);
    lemma_new_links(versions, dir);
    let after = rebuilt(versions, dir, quick);
    if after.contains(dir[i]) {
        let j = choose|j: int| 0 <= j < after.len() && after[j] == dir[i];
        if j < survivors(dir, quick).len() {
            assert(after[j] == survivors(dir, quick)[j]);
        } else {
            assert(after[j] == new_links(versions, dir)[j - survivors(dir, quick).len()]);
        }
    }
}

/// A link whose target exists is left in place by any number of rebuilds
/// in a row, and so is every entry that is not named like a quick link.
pub proof fn live_link_is_never_removed(
    versions: Seq<Seq<char>>,
    dir: Seq<LinkEntryView>,
    quick: spec_fn(Seq<char>) -> bool,
    i: int,
    n: nat,
)
    requires
        0 <= i < dir.len(),
        survives(dir[i], quick),
    ensures
        rebuilt_times(versions, dir, quick, n).contains(dir[i]),
    decreases n,
{
    if n == 0 {
        assert(rebuilt_times(versions, dir, quick, n)[i] == dir[i]);
    } else {
        live_link_is_never_removed(versions, dir, quick, i, (n - 1) as nat);
        let before = rebuilt_times(versions, dir, quick, (n - 1) as nat);
        let k = choose|k: int| 0 <= k < before.len() && before[k] == dir[i];
        lemma_survivors(before, quick);
        let kept = survivors(before, quick);
        let j = choose|j: int| 0 <= j < kept.len() && kept[j] == before[k];
        assert(rebuilt(versions, before, quick)[j] == dir[i]);
    }
}

/// A rebuild changes nothing before it has asked for privileges.
pub proof fn rebuild_asks_for_privileges_first(
    versions: Seq<Seq<char>>,
    dir: Seq<LinkEntryView>,
    quick: spec_fn(Seq<char>) -> bool,
)
    ensures
        crate::action::is_guarded(rebuild_plan(versions, dir, quick)),
{
    crate::action::lemma_guarded_by_first_step(rebuild_plan(versions, dir, quick));
}

/// What stands before the name in the path of every entry of the binary
/// directory.
pub open spec fn bin_prefix() -> Seq<char> {
    BIN_DIR@ + seq!['/']
}

/// Whether a path is that of an entry of the binary directory.
pub open spec fn in_bin(path: Seq<char>) -> bool {
    path.len() >= bin_prefix().len() && path.subrange(0, bin_prefix().len() as int) == bin_prefix()
}

/// The name of the entry of the binary directory that a path names.
pub open spec fn name_in_bin(path: Seq<char>) -> Seq<char> {
    path.skip(bin_prefix().len() as int)
}

/// The directory without the entries that are named `name`.
pub open spec fn without(dir: Seq<LinkEntryView>, name: Seq<char>) -> Seq<LinkEntryView>
    decreases dir.len(),
{
    if dir.len() == 0 {
        Seq::<LinkEntryView>::empty()
    } else if dir.last().name == name {
        without(dir.drop_last(), name)
    } else {
        without(dir.drop_last(), name).push(dir.last())
    }
}

/// What one step makes of the binary directory; `there` tells which paths
/// lead to something that exists. A link is made only under a name that is
/// free, else the step fails. A removal takes away what is under the name.
/// Steps that do not touch the binary directory leave it as it is.
pub open spec fn dir_after_step(
    step: ActionView,
    dir: Seq<LinkEntryView>,
    there: spec_fn(Seq<char>) -> bool,
) -> Option<Seq<LinkEntryView>> {
    match step {
        ActionView::Symlink { target, link } => if !in_bin(link) {
            Some(dir)
        } else if is_present(dir, name_in_bin(link)) {
            None
        } else {
            Some(
                dir.push(
                    LinkEntryView {
                        name: name_in_bin(link),
                        target: Some(target),
                        target_exists: there(target),
                    },
                ),
            )
        },
        ActionView::RemoveDangling { path } => if in_bin(path) {
            Some(without(dir, name_in_bin(path)))
        } else {
            Some(dir)
        },
        ActionView::RemoveIfExists { path } => if in_bin(path) {
            Some(without(dir, name_in_bin(path)))
        } else {
            Some(dir)
        },
        _ => Some(dir),
    }
}

/// What the steps of a plan, carried out in order, make of the binary
/// directory; none when one of them fails.
pub open spec fn dir_after(
    plan: Seq<ActionView>,
    dir: Seq<LinkEntryView>,
    there: spec_fn(Seq<char>) -> bool,
) -> Option<Seq<LinkEntryView>>
    decreases plan.len(),
{
    if plan.len() == 0 {
        Some(dir)
    } else {
        match dir_after(plan.drop_last(), dir, there) {
            Some(before) => dir_after_step(plan.last(), before, there),
            None => None,
        }
    }
}

/// Whether a sequence of entries can be the listing of a directory: every
/// name can name an entry, and no name occurs twice.
pub open spec fn is_listing(dir: Seq<LinkEntryView>) -> bool {
    &&& forall|i: int| 0 <= i < dir.len() ==> is_entry_name(#[trigger] dir[i].name)
    &&& forall|i: int, j: int|
        0 <= i < j < dir.len() ==> #[trigger] dir[i].name != #[trigger] dir[j].name
}

/// Whether no version occurs twice.
pub open spec fn are_distinct(versions: Seq<Seq<char>>) -> bool {
    forall|i: int, j: int| 0 <= i < j < versions.len() ==> versions[i] != versions[j]
}

proof fn lemma_name_in_bin(name: Seq<char>)
    requires
        name.len() == 0 || name[0] != '/',
    ensures
        joined(BIN_DIR@, name) == bin_prefix() + name,
        in_bin(joined(BIN_DIR@, name)),
        name_in_bin(joined(BIN_DIR@, name)) == name,
{
    reveal_strlit("/usr/local/bin");
    let path = joined(BIN_DIR@, name);
    assert(BIN_DIR@.len() == 14 && BIN_DIR@.last() == 'n');
    assert(path =~= bin_prefix() + name);
    assert(path.subrange(0, bin_prefix().len() as int) =~= bin_prefix());
    assert(path.skip(bin_prefix().len() as int) =~= name);
}

proof fn lemma_quick_link_names(a: Seq<char>, b: Seq<char>)
    ensures
        quick_link_name(a).len() > 0,
        quick_link_name(a)[0] != '/',
        quick_link_name(a) == quick_link_name(b) ==> a == b,
{
    reveal_strlit("R-");
    assert(QUICK_LINK_PREFIX@.len() == 2 && QUICK_LINK_PREFIX@[0] == 'R');
    assert(quick_link_name(a)[0] == 'R');
    if quick_link_name(a) == quick_link_name(b) {
        assert(a =~= quick_link_name(a).skip(2));
        assert(b =~= quick_link_name(b).skip(2));
    }
}

proof fn lemma_new_links_are_new(versions: Seq<Seq<char>>, dir: Seq<LinkEntryView>)
    ensures
        forall|j: int, i: int|
            #![trigger new_links(versions, dir)[j], dir[i]]
            0 <= j < new_links(versions, dir).len() && 0 <= i < dir.len() ==> new_links(
                versions,
                dir,
            )[j].name != dir[i].name,
    decreases versions.len(),
{
    if versions.len() > 0 {
        lemma_new_links_are_new(versions.drop_last(), dir);
        let n = new_links(versions, dir);
        let nb = new_links(versions.drop_last(), dir);
        assert forall|j: int, i: int|
            #![trigger n[j], dir[i]]
            0 <= j < n.len() && 0 <= i < dir.len() implies n[j].name != dir[i].name by {
            if j < nb.len() {
                assert(n[j] == nb[j]);
            } else {
                assert(n[j] == new_link(versions.last()));
                assert(!is_present(dir, quick_link_name(versions.last())));
            }
        }
    }
}

proof fn lemma_creations_carried_out(
    versions: Seq<Seq<char>>,
    dir: Seq<LinkEntryView>,
    there: spec_fn(Seq<char>) -> bool,
)
    requires
        are_distinct(versions),
        forall|k: int| 0 <= k < versions.len() ==> there(binary_path(#[trigger] versions[k])),
    ensures
        dir_after(
            seq![ActionView::Escalate { task: MAKE_LINKS_TASK@ }] + creations(versions, dir),
            dir,
            there,
        ) == Some(dir + new_links(versions, dir)),
    decreases versions.len(),
{
    let head = seq![ActionView::Escalate { task: MAKE_LINKS_TASK@ }];
    if versions.len() == 0 {
        assert(head + creations(versions, dir) =~= head);
        assert(head.drop_last() =~= Seq::<ActionView>::empty());
        assert(dir_after(head.drop_last(), dir, there) == Some(dir));
        assert(dir + new_links(versions, dir) =~= dir);
    } else {
        let before = versions.drop_last();
        let v = versions.last();
        assert forall|k: int| 0 <= k < before.len() implies there(
            binary_path(#[trigger] before[k]),
        ) by {
            assert(before[k] == versions[k]);
        }
        assert(are_distinct(before)) by {
            assert forall|i: int, j: int| 0 <= i < j < before.len() implies before[i]
                != before[j] by {
                assert(before[i] == versions[i] && before[j] == versions[j]);
            }
        }
        lemma_creations_carried_out(before, dir, there);
        let nb = new_links(before, dir);
        let so_far = dir + nb;
        if creation(v, dir) is Some {
            let step = creation(v, dir)->0;
            let plan = head + creations(versions, dir);
            assert(plan =~= (head + creations(before, dir)).push(step));
            assert(plan.drop_last() =~= head + creations(before, dir));
            assert(plan.last() == step);
            let name = quick_link_name(v);
            lemma_quick_link_names(v, v);
            lemma_name_in_bin(name);
            lemma_new_links(before, dir);
            assert forall|i: int| 0 <= i < so_far.len() implies #[trigger] so_far[i].name
                != name by {
                if i < dir.len() {
                    assert(so_far[i] == dir[i]);
                    assert(!is_present(dir, name));
                } else {
                    let e = nb[i - dir.len()];
                    assert(so_far[i] == e);
                    let k = choose|k: int| 0 <= k < before.len() && e == new_link(before[k]);
                    lemma_quick_link_names(before[k], v);
                    assert(before[k] == versions[k]);
                    assert(v == versions[versions.len() - 1]);
                }
            }
            assert(!is_present(so_far, name));
            assert(there(binary_path(versions[versions.len() - 1])));
            assert(so_far.push(new_link(v)) =~= dir + new_links(versions, dir));
        }
    }
}

/// What the clean-up of the entries `d` leaves of the directory `s`.
spec fn cleaned(s: Seq<LinkEntryView>, d: Seq<LinkEntryView>, quick: spec_fn(Seq<char>) -> bool) -> Seq<
    LinkEntryView,
>
    decreases d.len(),
{
    if d.len() == 0 {
        s
    } else if survives(d.last(), quick) {
        cleaned(s, d.drop_last(), quick)
    } else {
        without(cleaned(s, d.drop_last(), quick), d.last().name)
    }
}

proof fn lemma_cleanups_carried_out(
    head: Seq<ActionView>,
    d: Seq<LinkEntryView>,
    quick: spec_fn(Seq<char>) -> bool,
    start: Seq<LinkEntryView>,
    s: Seq<LinkEntryView>,
    there: spec_fn(Seq<char>) -> bool,
)
    requires
        dir_after(head, start, there) == Some(s),
        forall|i: int| 0 <= i < d.len() ==> is_entry_name(#[trigger] d[i].name),
    ensures
        dir_after(head + cleanups(d, quick), start, there) == Some(cleaned(s, d, quick)),
    decreases d.len(),
{
    if d.len() == 0 {
        assert(head + cleanups(d, quick) =~= head);
    } else {
        let before = d.drop_last();
        let e = d.last();
        assert(e == d[d.len() - 1]);
        assert forall|i: int| 0 <= i < before.len() implies is_entry_name(#[trigger] before[i].name) by {
            assert(before[i] == d[i]);
        }
        lemma_cleanups_carried_out(head, before, quick, start, s, there);
        match cleanup(e, quick(e.name)) {
            Some(step) => {
                let plan = head + cleanups(d, quick);
                assert(plan =~= (head + cleanups(before, quick)).push(step));
                assert(plan.drop_last() =~= head + cleanups(before, quick));
                assert(plan.last() == step);
                assert(e.name.contains(e.name[0]));
                lemma_name_in_bin(e.name);
            },
            None => {},
        }
    }
}

proof fn lemma_without_keeps(dir: Seq<LinkEntryView>, name: Seq<char>)
    requires
        forall|i: int| 0 <= i < dir.len() ==> #[trigger] dir[i].name != name,
    ensures
        without(dir, name) == dir,
    decreases dir.len(),
{
    if dir.len() > 0 {
        let before = dir.drop_last();
        assert forall|i: int| 0 <= i < before.len() implies #[trigger] before[i].name != name by {
            assert(before[i] == dir[i]);
        }
        lemma_without_keeps(before, name);
        assert(dir.last() == dir[dir.len() - 1]);
        assert(before.push(dir.last()) =~= dir);
    }
}

proof fn lemma_without_add(a: Seq<LinkEntryView>, b: Seq<LinkEntryView>, name: Seq<char>)
    ensures
        without(a + b, name) == without(a, name) + without(b, name),
    decreases b.len(),
{
    if b.len() == 0 {
        assert(a + b =~= a);
        assert(without(a, name) + without(b, name) =~= without(a, name));
    } else {
        lemma_without_add(a, b.drop_last(), name);
        assert((a + b).drop_last() =~= a + b.drop_last());
        assert((a + b).last() == b.last());
        assert((without(a, name) + without(b.drop_last(), name)).push(b.last()) =~= without(a, name)
            + without(b.drop_last(), name).push(b.last()));
    }
}

proof fn lemma_cleaned(
    dir: Seq<LinkEntryView>,
    added: Seq<LinkEntryView>,
    quick: spec_fn(Seq<char>) -> bool,
    k: int,
)
    requires
        is_listing(dir),
        0 <= k <= dir.len(),
        forall|j: int, i: int|
            #![trigger added[j], dir[i]]
            0 <= j < added.len() && 0 <= i < dir.len() ==> added[j].name != dir[i].name,
    ensures
        cleaned(dir + added, dir.take(k), quick) == survivors(dir.take(k), quick) + dir.skip(k)
            + added,
    decreases k,
{
    if k == 0 {
        assert(dir.take(0) =~= Seq::<LinkEntryView>::empty());
        assert(survivors(dir.take(0), quick) + dir.skip(0) + added =~= dir + added);
    } else {
        lemma_cleaned(dir, added, quick, k - 1);
        let e = dir[k - 1];
        let kept = survivors(dir.take(k - 1), quick);
        assert(dir.take(k).drop_last() =~= dir.take(k - 1));
        assert(dir.take(k).last() == e);
        let rest = dir.skip(k);
        assert(dir.skip(k - 1) =~= seq![e] + rest);
        let x = kept + dir.skip(k - 1) + added;
        if survives(e, quick) {
            assert(kept.push(e) + rest + added =~= x);
        } else {
            lemma_survivors(dir.take(k - 1), quick);
            assert forall|i: int| 0 <= i < kept.len() implies #[trigger] kept[i].name != e.name by {
                let prefix = dir.take(k - 1);
                assert(prefix.contains(kept[i]));
                let m = choose|m: int| 0 <= m < prefix.len() && prefix[m] == kept[i];
                assert(dir[m] == kept[i]);
                assert(dir[m].name != dir[k - 1].name);
            }
            assert forall|i: int| 0 <= i < rest.len() implies #[trigger] rest[i].name != e.name by {
                assert(rest[i] == dir[k + i]);
                assert(dir[k - 1].name != dir[k + i].name);
            }
            assert forall|j: int| 0 <= j < added.len() implies #[trigger] added[j].name
                != e.name by {
                assert(added[j].name != dir[k - 1].name);
            }
            lemma_without_keeps(kept, e.name);
            lemma_without_keeps(rest, e.name);
            lemma_without_keeps(added, e.name);
            let one = seq![e];
            assert(without(one, e.name) =~= Seq::<LinkEntryView>::empty()) by {
                assert(one.len() == 1 && one.last() == e);
                assert(one.drop_last().len() == 0);
                assert(without(one.drop_last(), e.name) =~= Seq::<LinkEntryView>::empty());
            }
            assert(x =~= ((kept + one) + rest) + added);
            lemma_without_add((kept + one) + rest, added, e.name);
            lemma_without_add(kept + one, rest, e.name);
            lemma_without_add(kept, one, e.name);
            assert(without(x, e.name) =~= kept + rest + added);
        }
    }
}

/// The model is what the plan yields. Carried out step by step on the
/// listing of a directory, the plan of a rebuild succeeds and leaves
/// exactly the directory that `rebuilt` describes: the entries that
/// survive, and behind them one new link for each version that had none.
/// The binaries of the installed versions exist, and no version is listed
/// twice.
pub proof fn rebuild_leaves_the_rebuilt_directory(
    versions: Seq<Seq<char>>,
    dir: Seq<LinkEntryView>,
    quick: spec_fn(Seq<char>) -> bool,
    there: spec_fn(Seq<char>) -> bool,
)
    requires
        is_listing(dir),
        are_distinct(versions),
        forall|k: int| 0 <= k < versions.len() ==> there(binary_path(#[trigger] versions[k])),
    ensures
        dir_after(rebuild_plan(versions, dir, quick), dir, there) == Some(
            rebuilt(versions, dir, quick),
        ),
{
    let head = seq![ActionView::Escalate { task: MAKE_LINKS_TASK@ }] + creations(versions, dir);
    let added = new_links(versions, dir);
    lemma_creations_carried_out(versions, dir, there);
    lemma_cleanups_carried_out(head, dir, quick, dir, dir + added, there);
    lemma_new_links_are_new(versions, dir);
    lemma_cleaned(dir, added, quick, dir.len() as int);
    assert(dir.take(dir.len() as int) =~= dir);
    assert(survivors(dir, quick) + dir.skip(dir.len() as int) + added =~= rebuilt(
        versions,
        dir,
        quick,
    ));
    assert(rebuild_plan(versions, dir, quick) =~= head + cleanups(dir, quick));
}

proof fn lemma_warnings_change_nothing(
    plan: Seq<ActionView>,
    dir: Seq<LinkEntryView>,
    there: spec_fn(Seq<char>) -> bool,
)
    requires
        forall|i: int| 0 <= i < plan.len() ==> (#[trigger] plan[i]) is WarnNotLink || plan[i] is Escalate,
    ensures
        dir_after(plan, dir, there) == Some(dir),
    decreases plan.len(),
{
    if plan.len() > 0 {
        assert forall|i: int| 0 <= i < plan.drop_last().len() implies (#[trigger] plan.drop_last()[i])
            is WarnNotLink || plan.drop_last()[i] is Escalate by {
            assert(plan.drop_last()[i] == plan[i]);
        }
        lemma_warnings_change_nothing(plan.drop_last(), dir, there);
        assert(plan.last() == plan[plan.len() - 1]);
    }
}

/// Rebuilding twice is rebuilding once. On the listing of a directory the
/// first rebuild can be carried out, and the plan of a second rebuild,
/// made for what the first has left and carried out in turn, leaves that
/// same directory. This holds where the first rebuild takes no quick link
/// away that is due.
pub proof fn rebuild_twice_is_rebuild_once(
    versions: Seq<Seq<char>>,
    dir: Seq<LinkEntryView>,
    quick: spec_fn(Seq<char>) -> bool,
    there: spec_fn(Seq<char>) -> bool,
)
    requires
        is_listing(dir),
        are_distinct(versions),
        forall|k: int| 0 <= k < versions.len() ==> there(binary_path(#[trigger] versions[k])),
        due_links_stay(versions, dir, quick),
    ensures
        dir_after(rebuild_plan(versions, dir, quick), dir, there) is Some,
        ({
            let once = dir_after(rebuild_plan(versions, dir, quick), dir, there)->0;
            dir_after(rebuild_plan(versions, once, quick), once, there) == Some(once)
        }),
{
    rebuild_leaves_the_rebuilt_directory(versions, dir, quick, there);
    second_rebuild_does_nothing(versions, dir, quick);
    let once = rebuilt(versions, dir, quick);
    let again = rebuild_plan(versions, once, quick);
    let inner = link_plan(versions, once, quick);
    assert forall|i: int| 0 <= i < again.len() implies (#[trigger] again[i]) is WarnNotLink
        || again[i] is Escalate by {
        if i > 0 {
            assert(again[i] == inner[i - 1]);
        }
    }
    lemma_warnings_change_nothing(again, once, there);
}

proof fn lemma_cleanups_hold(dir: Seq<LinkEntryView>, quick: spec_fn(Seq<char>) -> bool, i: int)
    requires
        0 <= i < dir.len(),
        cleanup(dir[i], quick(dir[i].name)) is Some,
    ensures
        cleanups(dir, quick).contains(cleanup(dir[i], quick(dir[i].name))->0),
    decreases dir.len(),
{
    let step = cleanup(dir[i], quick(dir[i].name))->0;
    let c = cleanups(dir, quick);
    if i == dir.len() - 1 {
        assert(c[c.len() - 1] == step);
    } else {
        let before = dir.drop_last();
        assert(before[i] == dir[i]);
        lemma_cleanups_hold(before, quick, i);
        let k = choose|k: int|
            0 <= k < cleanups(before, quick).len() && cleanups(before, quick)[k] == step;
        assert(c[k] == step);
    }
}

/// What is named like a quick link and is no link is warned about and
/// left where it is: the plan holds the warning, and the directory after
/// the rebuild holds the entry still.
pub proof fn file_under_a_quick_link_name_is_left(
    versions: Seq<Seq<char>>,
    dir: Seq<LinkEntryView>,
    quick: spec_fn(Seq<char>) -> bool,
    i: int,
)
    requires
        0 <= i < dir.len(),
        quick(dir[i].name),
        dir[i].target is None,
    ensures
        link_plan(versions, dir, quick).contains(
            ActionView::WarnNotLink { path: joined(BIN_DIR@, dir[i].name) },
        ),
        rebuilt(versions, dir, quick).contains(dir[i]),
{
    let step = ActionView::WarnNotLink { path: joined(BIN_DIR@, dir[i].name) };
    lemma_cleanups_hold(dir, quick, i);
    let c = cleanups(dir, quick);
    let k = choose|k: int| 0 <= k < c.len() && c[k] == step;
    assert(link_plan(versions, dir, quick)[creations(versions, dir).len() + k] == step);
    lemma_survivors(dir, quick);
    let kept = survivors(dir, quick);
    let j = choose|j: int| 0 <= j < kept.len() && kept[j] == dir[i];
    assert(rebuilt(versions, dir, quick)[j] == dir[i]);
}

} // verus!
