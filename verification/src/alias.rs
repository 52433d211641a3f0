//! Aliases: links in the binary directory that give a version a second
//! name, such as that of a release channel. They are made elsewhere; here
//! they are only found.

use crate::error::ErrorView;
use crate::error::RigError;
use crate::links::LinkEntry;
use crate::links::LinkEntryView;
use crate::links::QUICK_LINK_PREFIX;
use crate::paths::binary_path;
use crate::paths::is_entry_name;
use crate::paths::lemma_version_paths;
use crate::paths::linked_version;
use crate::paths::version_from_link;
use crate::pattern::blocked;
use crate::pattern::is_match;
use crate::pattern::regex_accepts;
use crate::pattern::regex_is_match;
use crate::text::chars_of;
use vstd::prelude::*;
use vstd::string::StrSliceExecFns;
use vstd::string::StringExecFns;

verus! {

/// The names of the links that are aliases.
pub const ALIAS_PATTERN: &'static str = "^R-(release|oldrel)$";

/// An alias and the version it stands for.
#[derive(Debug)]
pub struct Alias {
    /// The alias, without the prefix of the link's name.
    pub alias: String,
    /// The version that the link leads to.
    pub version: String,
}

/// An `Alias` with its texts as character sequences.
pub struct AliasView {
    pub alias: Seq<char>,
    pub version: Seq<char>,
}

impl View for Alias {
    type V = AliasView;

    open spec fn view(&self) -> AliasView {
        AliasView { alias: self.alias@, version: self.version@ }
    }
}

impl DeepView for Alias {
    type V = AliasView;

    open spec fn deep_view(&self) -> AliasView {
        self@
    }
}

/// The pattern that tells which links are aliases.
pub fn re_alias() -> (r: &'static str)
    ensures
        r@ == ALIAS_PATTERN@,
{
    ALIAS_PATTERN
}

/// Whether a name is that of an alias link.
pub open spec fn is_alias(name: Seq<char>) -> bool {
    regex_is_match(ALIAS_PATTERN@, name)
}

/// `is_alias` as a predicate.
pub open spec fn alias_names() -> spec_fn(Seq<char>) -> bool {
    |name: Seq<char>| is_alias(name)
}

/// Whether `name` is that of an alias link. Fails with `BadPattern`
/// exactly if the pattern for aliases is not accepted.
pub fn is_alias_name(name: &str) -> (r: Result<bool, RigError>)
    ensures
        match r {
            Ok(b) => regex_accepts(ALIAS_PATTERN@) && b == is_alias(name@),
            Err(e) => !regex_accepts(ALIAS_PATTERN@) && e@ == ErrorView::BadPattern,
        },
{
    is_match(re_alias(), name)
}

/// The alias that a link's name gives: the name without the prefix that
/// all these links share.
pub open spec fn alias_label(name: Seq<char>) -> Seq<char> {
    if name.len() >= QUICK_LINK_PREFIX@.len() {
        name.skip(QUICK_LINK_PREFIX@.len() as int)
    } else {
        Seq::<char>::empty()
    }
}

/// The alias that one entry of the binary directory defines. It defines
/// one when it is named like an alias, is a link whose target exists, and
/// the target lies two levels below a directory with a proper name; that
/// name is the version. Any other entry defines none.
pub open spec fn alias_of(e: LinkEntryView, named_like_alias: bool) -> Option<AliasView> {
    if named_like_alias && e.target is Some && e.target_exists {
        match linked_version(e.target->0) {
            Some(version) => Some(AliasView { alias: alias_label(e.name), version }),
            None => None,
        }
    } else {
        None
    }
}

/// The aliases that the entries of the binary directory define, in the
/// order of the entries.
pub open spec fn aliases(dir: Seq<LinkEntryView>, alias: spec_fn(Seq<char>) -> bool) -> Seq<
    AliasView,
>
    decreases dir.len(),
{
    if dir.len() == 0 {
        Seq::<AliasView>::empty()
    } else {
        let before = aliases(dir.drop_last(), alias);
        match alias_of(dir.last(), alias(dir.last().name)) {
            Some(a) => before.push(a),
            None => before,
        }
    }
}

/// The alias that one entry of the binary directory defines, given whether
/// its name is that of an alias.
pub fn entry_alias(entry: &LinkEntry, named_like_alias: bool) -> (r: Option<Alias>)
    ensures
        r.deep_view() == alias_of(entry@, named_like_alias),
{
    if !named_like_alias || !entry.target_exists {
        return None;
    }
    match &entry.target {
        None => None,
        Some(target) => match version_from_link(target.as_str()) {
            None => None,
            Some(version) => {
                proof {
                    reveal_strlit("R-");
                }
                let cs = chars_of(entry.name.as_str());
                let alias = if cs.len() >= 2 {
                    String::from_str(entry.name.as_str().substring_char(2, cs.len()))
                } else {
                    String::new()
                };
                Some(Alias { alias, version })
            },
        },
    }
}

/// The aliases that exist; `dir` is a scan of the binary directory.
/// Entries that are no links, and links whose targets are gone, are passed
/// over. Fails with `BadPattern` exactly if the directory has entries and
/// the pattern for aliases is not accepted.
pub fn find_aliases(dir: &Vec<LinkEntry>) -> (r: Result<Vec<Alias>, RigError>)
    ensures
        match r {
            Ok(found) => !blocked(ALIAS_PATTERN@, dir@.len()) && found.deep_view() == aliases(
                dir.deep_view(),
                alias_names(),
            ),
            Err(e) => blocked(ALIAS_PATTERN@, dir@.len()) && e@ == ErrorView::BadPattern,
        },
        regex_accepts(ALIAS_PATTERN@) ==> (r matches Ok(found) && found.deep_view() == aliases(
            dir.deep_view(),
            alias_names(),
        )),
{
    let mut result: Vec<Alias> = Vec::new();
    let ghost all = dir.deep_view();
    let mut i: usize = 0;
    assert(all.take(0) =~= Seq::<LinkEntryView>::empty());
    assert(result.deep_view() =~= Seq::<AliasView>::empty());
    while i < dir.len()
        invariant
            i <= dir.len(),
            all == dir.deep_view(),
            i > 0 ==> regex_accepts(ALIAS_PATTERN@),
            result.deep_view() == aliases(all.take(i as int), alias_names()),
        decreases dir.len() - i,
    {
        let e = &dir[i];
        proof {
            assert(all.take(i + 1).drop_last() =~= all.take(i as int));
            assert(all.take(i + 1).last() == e@);
        }
        let named = is_alias_name(e.name.as_str())?;
        match entry_alias(e, named) {
            Some(a) => {
                let ghost before = result.deep_view();
                result.push(a);
                assert(result.deep_view() =~= before.push(a@));
            },
            None => {},
        }
        i += 1;
    }
    assert(all.take(i as int) =~= all);
    Ok(result)
}

/// A link to the R binary of a version is an alias of that very version:
/// where a link named like an alias leads to the binary of `version`, and
/// the binary exists, the alias found is the link's name without its
/// prefix, and it stands for `version`.
pub proof fn alias_names_its_version(name: Seq<char>, version: Seq<char>)
    requires
        is_entry_name(version),
    ensures
        alias_of(
            LinkEntryView { name, target: Some(binary_path(version)), target_exists: true },
            true,
        ) == Some(AliasView { alias: alias_label(name), version }),
{
    lemma_version_paths(version);
}

} // verus!
