//! Where things are: the fixed places of the installation, and the rules
//! by which paths are put together and taken apart.

use crate::error::RigError;
use crate::text::chars_of;
use crate::text::concat2;
use crate::text::concat3;
use crate::text::split;
use crate::text::split_text;
use crate::text::text_eq;
use crate::text::texts;
use vstd::prelude::*;
use vstd::string::StringExecFns;

verus! {

/// The installation root: each installed version is a directory in it.
pub const R_ROOT: &'static str = "/opt/R";

/// The directory of a version below the installation root.
pub const R_VERSIONDIR: &'static str = "{}";

/// The system library of a version below the installation root.
pub const R_SYSLIBPATH: &'static str = "{}/lib/R/library";

/// The R binary of a version below the installation root.
pub const R_BINPATH: &'static str = "{}/bin/R";

/// The pointer to the default version: a link beside the versions.
pub const R_CUR: &'static str = "/opt/R/current";

/// The directory that holds the quick links, the aliases and the two
/// commands.
pub const BIN_DIR: &'static str = "/usr/local/bin";

/// The R binary inside a version's directory.
pub const BINARY: &'static str = "bin/R";

/// The script runner inside a version's directory.
pub const SCRIPT_BINARY: &'static str = "bin/Rscript";

/// The environment file inside a version's directory.
pub const RENVIRON: &'static str = "lib/R/etc/Renviron";

/// The startup profile of the base package inside a version's directory.
pub const PROFILE: &'static str = "lib/R/library/base/R/Rprofile";

/// `rel` below `base`. An absolute `rel` replaces `base`; otherwise the
/// two are put together, with one separator between them unless `base` is
/// empty or ends with one.
pub open spec fn joined(base: Seq<char>, rel: Seq<char>) -> Seq<char> {
    if rel.len() > 0 && rel[0] == '/' {
        rel
    } else if base.len() == 0 || base.last() == '/' {
        base + rel
    } else {
        base + seq!['/'] + rel
    }
}

/// `rel` below `base`.
pub fn join(base: &str, rel: &str) -> (r: String)
    ensures
        r@ == joined(base@, rel@),
{
    let b = chars_of(base);
    let p = chars_of(rel);
    if p.len() > 0 && p[0] == '/' {
        String::from_str(rel)
    } else if b.len() == 0 || b[b.len() - 1] == '/' {
        concat2(base, rel)
    } else {
        proof {
            reveal_strlit("/");
            assert("/"@ =~= seq!['/']);
        }
        concat3(base, "/", rel)
    }
}

/// The directory of a version.
pub open spec fn version_dir(version: Seq<char>) -> Seq<char> {
    joined(R_ROOT@, version)
}

/// The R binary of a version.
pub open spec fn binary_path(version: Seq<char>) -> Seq<char> {
    joined(version_dir(version), BINARY@)
}

/// The startup profile of a version.
pub open spec fn profile_path(version: Seq<char>) -> Seq<char> {
    joined(version_dir(version), PROFILE@)
}

/// The directory of the version `rver`.
pub fn get_version_dir(rver: &str) -> (r: String)
    ensures
        r@ == version_dir(rver@),
{
    join(R_ROOT, rver)
}

/// The R binary of the version `rver`. It never fails.
pub fn get_r_binary(rver: &str) -> (r: Result<String, RigError>)
    ensures
        r matches Ok(p) && p@ == binary_path(rver@),
{
    let dir = join(R_ROOT, rver);
    Ok(join(dir.as_str(), BINARY))
}

/// The environment file of the version `rver`. It never fails.
pub fn get_system_renviron(rver: &str) -> (r: Result<String, RigError>)
    ensures
        r matches Ok(p) && p@ == joined(version_dir(rver@), RENVIRON@),
{
    let dir = join(R_ROOT, rver);
    Ok(join(dir.as_str(), RENVIRON))
}

/// The startup profile of the version `rver`. It never fails.
pub fn get_system_profile(rver: &str) -> (r: Result<String, RigError>)
    ensures
        r matches Ok(p) && p@ == profile_path(rver@),
{
    let dir = join(R_ROOT, rver);
    Ok(join(dir.as_str(), PROFILE))
}

/// Of the pieces between the separators of a path, those that count as
/// components: the empty ones are dropped, and so is every `.` but one that
/// stands first.
pub open spec fn kept(pieces: Seq<Seq<char>>) -> Seq<Seq<char>>
    decreases pieces.len(),
{
    if pieces.len() == 0 {
        Seq::<Seq<char>>::empty()
    } else {
        let before = kept(pieces.drop_last());
        let piece = pieces.last();
        if piece.len() > 0 && (piece != seq!['.'] || pieces.len() == 1) {
            before.push(piece)
        } else {
            before
        }
    }
}

/// The components of a path, the root left out.
pub open spec fn components(path: Seq<char>) -> Seq<Seq<char>> {
    kept(split(path, '/'))
}

/// A component that names an entry: neither `.` nor `..`.
pub open spec fn is_normal(component: Seq<char>) -> bool {
    component != seq!['.'] && component != seq!['.', '.']
}

/// The name that a path ends in: its last component, if that names an
/// entry.
pub open spec fn file_name(path: Seq<char>) -> Option<Seq<char>> {
    let c = components(path);
    if c.len() >= 1 && is_normal(c.last()) {
        Some(c.last())
    } else {
        None
    }
}

/// The name of the directory two levels above the end of a path: for the
/// path of a version's R binary, the version.
pub open spec fn linked_version(path: Seq<char>) -> Option<Seq<char>> {
    let c = components(path);
    if c.len() >= 3 && is_normal(c[c.len() - 3]) {
        Some(c[c.len() - 3])
    } else {
        None
    }
}

/// The components of `path`, the root left out.
pub fn path_components(path: &str) -> (r: Vec<String>)
    ensures
        texts(r@) == components(path@),
{
    let pieces = split_text(path, '/');
    let mut out: Vec<String> = Vec::new();
    let mut i: usize = 0;
    let ghost all = texts(pieces@);
    assert(all.take(0) =~= Seq::<Seq<char>>::empty());
    assert(texts(out@) =~= Seq::<Seq<char>>::empty());
    while i < pieces.len()
        invariant
            i <= pieces.len(),
            all == texts(pieces@),
            texts(out@) == kept(all.take(i as int)),
        decreases pieces.len() - i,
    {
        proof {
            assert(all.take(i + 1).drop_last() =~= all.take(i as int));
            assert(all.take(i + 1).last() == pieces@[i as int]@);
            reveal_strlit(".");
            assert("."@ =~= seq!['.']);
        }
        let piece = &pieces[i];
        let cs = chars_of(piece.as_str());
        if cs.len() > 0 && (!text_eq(piece.as_str(), ".") || i == 0) {
            let ghost before = texts(out@);
            out.push(piece.clone());
            assert(texts(out@) =~= before.push(piece@));
        }
        i += 1;
    }
    assert(all.take(i as int) =~= all);
    out
}

fn component_is_normal(component: &str) -> (r: bool)
    ensures
        r == is_normal(component@),
{
    proof {
        reveal_strlit(".");
        reveal_strlit("..");
        assert("."@ =~= seq!['.']);
        assert(".."@ =~= seq!['.', '.']);
    }
    !text_eq(component, ".") && !text_eq(component, "..")
}

/// The name that `path` ends in, if it ends in one.
pub fn path_file_name(path: &str) -> (r: Option<String>)
    ensures
        match r {
            Some(name) => file_name(path@) == Some(name@),
            None => file_name(path@) is None,
        },
{
    let c = path_components(path);
    let n = c.len();
    if n >= 1 && component_is_normal(c[n - 1].as_str()) {
        assert(texts(c@).last() == c@[n - 1]@);
        Some(c[n - 1].clone())
    } else {
        None
    }
}

/// The version that a link to an R binary belongs to: the name of the
/// directory two levels above the link's target.
pub fn version_from_link(target: &str) -> (r: Option<String>)
    ensures
        match r {
            Some(version) => linked_version(target@) == Some(version@),
            None => linked_version(target@) is None,
        },
{
    let c = path_components(target);
    let n = c.len();
    if n >= 3 && component_is_normal(c[n - 3].as_str()) {
        assert(texts(c@)[n - 3] == c@[n - 3]@);
        Some(c[n - 3].clone())
    } else {
        None
    }
}

/// A text that can name an entry of a directory: not empty, without a
/// separator, and neither `.` nor `..`.
pub open spec fn is_entry_name(name: Seq<char>) -> bool {
    name.len() > 0 && !name.contains('/') && is_normal(name)
}

proof fn lemma_split_append_name(path: Seq<char>, name: Seq<char>)
    requires
        !name.contains('/'),
    ensures
        split(path + seq!['/'] + name, '/') == split(path, '/').push(name),
    decreases name.len(),
{
    let whole = path + seq!['/'] + name;
    if name.len() == 0 {
        assert(whole.drop_last() =~= path);
        assert(name =~= Seq::<char>::empty());
    } else {
        let shorter = name.drop_last();
        assert forall|k: int| 0 <= k < shorter.len() implies shorter[k] != '/' by {
            assert(name.contains(name[k]));
        }
        lemma_split_append_name(path, shorter);
        assert(whole.drop_last() =~= path + seq!['/'] + shorter);
        assert(name.contains(name.last()));
        assert(whole.last() == name.last());
        let before = split(path, '/').push(shorter);
        assert(before.drop_last() =~= split(path, '/'));
        assert(shorter.push(name.last()) =~= name);
    }
}

/// A name put behind a path, with a separator between them, is the path's
/// next component.
pub proof fn lemma_components_append(path: Seq<char>, name: Seq<char>)
    requires
        is_entry_name(name),
    ensures
        components(path + seq!['/'] + name) == components(path).push(name),
{
    lemma_split_append_name(path, name);
    assert(split(path, '/').push(name).drop_last() =~= split(path, '/'));
}

/// The directory of a version ends in the version's name, and the path of
/// its R binary lies two levels below that directory: from either path the
/// version can be read back.
pub proof fn lemma_version_paths(version: Seq<char>)
    requires
        is_entry_name(version),
    ensures
        version_dir(version) == R_ROOT@ + seq!['/'] + version,
        binary_path(version) == version_dir(version) + seq!['/'] + BINARY@,
        file_name(version_dir(version)) == Some(version),
        linked_version(binary_path(version)) == Some(version),
{
    reveal_strlit("/opt/R");
    reveal_strlit("bin/R");
    let bin = seq!['b', 'i', 'n'];
    let r = seq!['R'];
    assert(version.contains(version[0]));
    assert(version.contains(version.last()));
    let dir = R_ROOT@ + seq!['/'] + version;
    assert(version_dir(version) =~= dir);
    assert(dir.last() == version.last());
    assert(BINARY@[0] == 'b');
    assert(binary_path(version) =~= dir + seq!['/'] + BINARY@);
    assert(BINARY@ =~= bin + seq!['/'] + r);
    assert(binary_path(version) =~= ((dir + seq!['/'] + bin) + seq!['/'] + r));
    assert(is_entry_name(bin)) by {
        assert(bin.len() == 3);
        assert(forall|k: int| 0 <= k < bin.len() ==> bin[k] != '/');
    }
    assert(is_entry_name(r)) by {
        assert(r.len() == 1);
        assert(r[0] == 'R');
        assert(forall|k: int| 0 <= k < r.len() ==> r[k] != '/');
    }
    lemma_components_append(R_ROOT@, version);
    lemma_components_append(dir, bin);
    lemma_components_append(dir + seq!['/'] + bin, r);
}

} // verus!
