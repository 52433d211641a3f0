//! The installed versions. Nothing is remembered between calls: the list
//! is derived each time from what the installation root holds.

use crate::error::ErrorView;
use crate::error::RigError;
use crate::text::lemma_lex_lt_transitive;
use crate::text::lemma_lex_order_total;
use crate::text::lemma_lex_trichotomy;
use crate::text::lex_le;
use crate::text::lex_order;
use crate::text::text_eq;
use crate::text::text_lt;
use crate::text::texts;
use vstd::prelude::*;
use vstd::relations::sorted_by;
use vstd::seq_lib::lemma_sorted_unique;
use vstd::seq_lib::to_multiset_build;
use vstd::seq_lib::to_multiset_insert;
use vstd::string::StringExecFns;

verus! {

/// The name under the installation root that is no version: the pointer to
/// the default version.
pub const CURRENT: &'static str = "current";

/// One child of the installation root, as a scan found it.
#[derive(Debug)]
pub struct RootEntry {
    /// The child's name.
    pub name: String,
    /// Whether the child holds the R binary, at `bin/R`.
    pub has_binary: bool,
    /// Whether the child holds the startup profile of the base package.
    pub has_profile: bool,
}

/// A `RootEntry` with its name as a character sequence.
pub struct RootEntryView {
    pub name: Seq<char>,
    pub has_binary: bool,
    pub has_profile: bool,
}

impl View for RootEntry {
    type V = RootEntryView;

    open spec fn view(&self) -> RootEntryView {
        RootEntryView {
            name: self.name@,
            has_binary: self.has_binary,
            has_profile: self.has_profile,
        }
    }
}

impl DeepView for RootEntry {
    type V = RootEntryView;

    open spec fn deep_view(&self) -> RootEntryView {
        self@
    }
}

/// A child of the installation root is an installed version when it holds
/// the R binary and is not the pointer to the default version.
pub open spec fn is_installation(e: RootEntryView) -> bool {
    e.name != CURRENT@ && e.has_binary
}

/// The names of the installed versions, in the order of the scan.
pub open spec fn qualifying(root: Seq<RootEntryView>) -> Seq<Seq<char>>
    decreases root.len(),
{
    if root.len() == 0 {
        Seq::<Seq<char>>::empty()
    } else if is_installation(root.last()) {
        qualifying(root.drop_last()).push(root.last().name)
    } else {
        qualifying(root.drop_last())
    }
}

/// The installed versions: the names of the installations, in
/// lexicographic order. The order is that of the characters, not of version
/// numbers, so `4.10.0` comes before `4.2.0`.
pub open spec fn installed(root: Seq<RootEntryView>) -> Seq<Seq<char>> {
    qualifying(root).sort_by(lex_order())
}

/// Whether `version` is one of the installed versions.
pub open spec fn is_installed(root: Seq<RootEntryView>, version: Seq<char>) -> bool {
    exists|i: int| 0 <= i < root.len() && is_installation(root[i]) && root[i].name == version
}

/// A name is among the qualifying ones exactly if some child of that name
/// is an installation.
pub proof fn lemma_qualifying_contains(root: Seq<RootEntryView>, name: Seq<char>)
    ensures
        qualifying(root).contains(name) <==> is_installed(root, name),
    decreases root.len(),
{
    if root.len() > 0 {
        let before = root.drop_last();
        lemma_qualifying_contains(before, name);
        if is_installed(root, name) {
            let i = choose|i: int|
                0 <= i < root.len() && is_installation(root[i]) && root[i].name == name;
            if i < root.len() - 1 {
                assert(before[i] == root[i]);
                assert(is_installed(before, name));
                let k = choose|k: int|
                    0 <= k < qualifying(before).len() && qualifying(before)[k] == name;
                assert(qualifying(root)[k] == name);
            } else {
                assert(qualifying(root).last() == name);
            }
        }
        if qualifying(root).contains(name) {
            let k = choose|k: int| 0 <= k < qualifying(root).len() && qualifying(root)[k] == name;
            if k < qualifying(before).len() {
                assert(qualifying(before)[k] == name);
                let i = choose|i: int|
                    0 <= i < before.len() && is_installation(before[i]) && before[i].name == name;
                assert(root[i] == before[i]);
            } else {
                assert(root[root.len() - 1] == root.last());
            }
        }
    }
}

/// The list of installed versions is in lexicographic order, and holds
/// exactly the names of the children that carry the R binary, the pointer
/// to the default version left out.
pub proof fn installed_are_the_installations(root: Seq<RootEntryView>)
    ensures
        sorted_by(installed(root), lex_order()),
        installed(root).to_multiset() == qualifying(root).to_multiset(),
        forall|name: Seq<char>| #[trigger]
            installed(root).contains(name) <==> is_installed(root, name),
        !installed(root).contains(CURRENT@),
        forall|name: Seq<char>|
            (forall|i: int| 0 <= i < root.len() && root[i].name == name ==> !root[i].has_binary)
                ==> !(#[trigger] installed(root).contains(name)),
{
    lemma_lex_order_total();
    qualifying(root).lemma_sort_by_ensures(lex_order());
    assert forall|name: Seq<char>| #[trigger]
        installed(root).contains(name) <==> is_installed(root, name) by {
        lemma_qualifying_contains(root, name);
        vstd::seq_lib::to_multiset_contains(qualifying(root), name);
        vstd::seq_lib::to_multiset_contains(installed(root), name);
    }
}

/// Puts `name` into a sorted list at its place.
fn insert_sorted(list: &mut Vec<String>, name: String)
    requires
        sorted_by(texts(old(list)@), lex_order()),
    ensures
        sorted_by(texts(final(list)@), lex_order()),
        texts(final(list)@).to_multiset() == texts(old(list)@).to_multiset().insert(name@),
{
    let mut at: usize = 0;
    let mut found = false;
    while at < list.len() && !found
        invariant
            at <= list.len(),
            *list == *old(list),
            forall|k: int| 0 <= k < at ==> lex_le(#[trigger] list@[k]@, name@),
            found ==> at < list.len() && crate::text::lex_lt(name@, list@[at as int]@),
        decreases list.len() - at + if found { 0int } else { 1int },
    {
        if text_lt(name.as_str(), list[at].as_str()) {
            found = true;
        } else {
            proof {
                lemma_lex_trichotomy(name@, list@[at as int]@);
            }
            at += 1;
        }
    }
    let ghost before = texts(list@);
    list.insert(at, name);
    proof {
        let after = texts(list@);
        assert(after =~= before.insert(at as int, name@));
        to_multiset_insert(before, at as int, name@);
        assert forall|i: int, j: int| 0 <= i < j < after.len() implies lex_le(
            after[i],
            after[j],
        ) by {
            if j < at {
                assert(lex_order()(before[i], before[j]));
            } else if j == at {
                assert(lex_le(before[i], name@));
            } else if i < at {
                assert(lex_order()(before[i], before[j - 1]));
            } else if i == at {
                if j - 1 > at {
                    assert(lex_order()(before[at as int], before[j - 1]));
                    if before[at as int] != before[j - 1] {
                        lemma_lex_lt_transitive(name@, before[at as int], before[j - 1]);
                    }
                }
            } else {
                assert(lex_order()(before[i - 1], before[j - 1]));
            }
        }
    }
}

/// The installed versions, in lexicographic order: the names of the
/// children of the installation root that hold the R binary, without the
/// pointer to the default version.
pub fn sc_get_list(root: &Vec<RootEntry>) -> (r: Vec<String>)
    ensures
        texts(r@) == installed(root.deep_view()),
{
    let mut vers: Vec<String> = Vec::new();
    let mut i: usize = 0;
    let ghost all = root.deep_view();
    assert(all.take(0) =~= Seq::<RootEntryView>::empty());
    assert(texts(vers@) =~= Seq::<Seq<char>>::empty());
    while i < root.len()
        invariant
            i <= root.len(),
            all == root.deep_view(),
            sorted_by(texts(vers@), lex_order()),
            texts(vers@).to_multiset() == qualifying(all.take(i as int)).to_multiset(),
        decreases root.len() - i,
    {
        let e = &root[i];
        proof {
            assert(all.take(i + 1).drop_last() =~= all.take(i as int));
            assert(all.take(i + 1).last() == e@);
            to_multiset_build(qualifying(all.take(i as int)), e@.name);
        }
        if !text_eq(e.name.as_str(), CURRENT) && e.has_binary {
            insert_sorted(&mut vers, e.name.clone());
        }
        i += 1;
    }
    proof {
        assert(all.take(i as int) =~= all);
        lemma_lex_order_total();
        qualifying(all).lemma_sort_by_ensures(lex_order());
        lemma_sorted_unique(texts(vers@), installed(all), lex_order());
    }
    vers
}

/// Confirms that `version` is installed and gives its name back; fails
/// with `NotInstalled` when no installation has exactly that name.
#[verifier::loop_isolation(false)]
pub fn check_installed(version: &str, root: &Vec<RootEntry>) -> (r: Result<String, RigError>)
    ensures
        match r {
            Ok(v) => v@ == version@ && is_installed(root.deep_view(), version@),
            Err(e) => e@ == (ErrorView::NotInstalled { version: version@ }) && !is_installed(
                root.deep_view(),
                version@,
            ),
        },
{
    let vers = sc_get_list(root);
    proof {
        installed_are_the_installations(root.deep_view());
    }
    let mut i: usize = 0;
    while i < vers.len()
        invariant
            i <= vers.len(),
            forall|k: int| 0 <= k < i ==> #[trigger] texts(vers@)[k] != version@,
        decreases vers.len() - i,
    {
        if text_eq(vers[i].as_str(), version) {
            assert(texts(vers@)[i as int] == version@);
            assert(installed(root.deep_view()).contains(version@));
            return Ok(vers[i].clone());
        }
        i += 1;
    }
    assert(!installed(root.deep_view()).contains(version@));
    Err(RigError::NotInstalled { version: String::from_str(version) })
}

} // verus!
