//! Finding out which distribution the host runs, from the lines of its
//! identification files, and matching it with the catalog.

use crate::catalog::catalog;
use crate::catalog::list_supported_distros;
use crate::catalog::Arch;
use crate::catalog::HostView;
use crate::catalog::LinuxVersion;
use crate::error::ErrorView;
use crate::error::RigError;
use crate::pattern::blocked;
use crate::pattern::find_line;
use crate::pattern::first_match;
use crate::pattern::regex_accepts;
use crate::pattern::regex_is_match;
use crate::pattern::regex_replace;
use crate::pattern::replace;
use crate::text::chars_of;
use crate::text::text_eq;
use crate::text::texts;
use vstd::prelude::*;
use vstd::string::StrSliceExecFns;
use vstd::string::StringExecFns;

verus! {

/// The line that holds the distribution's id.
pub const ID_PATTERN: &'static str = "^ID=";

/// The line that holds the release.
pub const VERSION_ID_PATTERN: &'static str = "^VERSION_ID=";

/// The line by which a derivative names the Ubuntu release it is built on.
pub const CODENAME_PATTERN: &'static str = "^UBUNTU_CODENAME=";

/// The last component of a dotted version number.
pub const PATCH_PATTERN: &'static str = "[.][0-9]+$";

/// The id of the one Debian derivative that is recognised by its own name.
pub const DEEPIN: &'static str = "Deepin";

/// The release that stands for a Debian base that could not be read.
pub const UNKNOWN: &'static str = "unknown";

/// What the identification file says of the host.
#[derive(Debug)]
pub struct OsRelease {
    /// The distribution's id, unquoted; empty when the file names none.
    pub id: String,
    /// The release, unquoted; empty when the file names none.
    pub version: String,
    /// The Ubuntu code name, as written, when the file has one.
    pub codename: Option<String>,
}

/// An `OsRelease` with its texts as character sequences.
pub struct OsReleaseView {
    pub id: Seq<char>,
    pub version: Seq<char>,
    pub codename: Option<Seq<char>>,
}

impl View for OsRelease {
    type V = OsReleaseView;

    open spec fn view(&self) -> OsReleaseView {
        OsReleaseView {
            id: self.id@,
            version: self.version@,
            codename: match self.codename {
                Some(c) => Some(c@),
                None => None,
            },
        }
    }
}

/// `s` without the quotes around it: when `s` begins and ends with the
/// same quote character, single or double, both are dropped; any other
/// text stays as it is.
pub open spec fn unquoted(s: Seq<char>) -> Seq<char> {
    if s.len() >= 2 && s.first() == s.last() && (s.first() == '"' || s.first() == '\'') {
        s.subrange(1, s.len() - 1)
    } else {
        s
    }
}

/// `s` without the quotes around it.
pub fn unquote(s: &str) -> (r: String)
    ensures
        r@ == unquoted(s@),
{
    let cs = chars_of(s);
    let n = cs.len();
    if n >= 2 && cs[0] == cs[n - 1] && (cs[0] == '"' || cs[0] == '\'') {
        String::from_str(s.substring_char(1, n - 1))
    } else {
        String::from_str(s)
    }
}

/// The value of a field: the first line that `pattern` matches, with the
/// match taken out.
pub open spec fn field(pattern: Seq<char>, lines: Seq<Seq<char>>) -> Option<Seq<char>> {
    match first_match(pattern, lines) {
        Some(at) => Some(regex_replace(pattern, lines[at], Seq::<char>::empty())),
        None => None,
    }
}

/// The value of a field: the first of `lines` that `pattern` matches, with
/// the match taken out. Fails with `BadPattern` exactly if there are lines
/// and the pattern is not accepted.
pub fn read_field(pattern: &str, lines: &Vec<String>) -> (r: Result<Option<String>, RigError>)
    ensures
        match r {
            Ok(v) => !blocked(pattern@, lines@.len()) && v.deep_view() == field(
                pattern@,
                texts(lines@),
            ),
            Err(e) => blocked(pattern@, lines@.len()) && e@ == ErrorView::BadPattern,
        },
{
    match find_line(pattern, lines)? {
        Some(at) => {
            proof {
                reveal_strlit("");
                assert(""@ =~= Seq::<char>::empty());
            }
            let value = replace(pattern, lines[at].as_str(), "")?;
            Ok(Some(value))
        },
        None => Ok(None),
    }
}

/// What the three fields of the identification file say of the host:
/// id and release are unquoted, and empty where the field is missing; the
/// code name is kept as it is written.
pub open spec fn os_release_of(
    id: Option<Seq<char>>,
    version: Option<Seq<char>>,
    codename: Option<Seq<char>>,
) -> OsReleaseView {
    OsReleaseView {
        id: match id {
            Some(v) => unquoted(v),
            None => Seq::<char>::empty(),
        },
        version: match version {
            Some(v) => unquoted(v),
            None => Seq::<char>::empty(),
        },
        codename,
    }
}

/// What the three fields of the identification file say of the host, each
/// given as it stands in the file, or none where the file has no such
/// field.
pub fn os_release_from(id: Option<String>, version: Option<String>, codename: Option<String>) -> (r:
    OsRelease)
    ensures
        r@ == os_release_of(id.deep_view(), version.deep_view(), codename.deep_view()),
{
    let id = match id {
        Some(v) => unquote(v.as_str()),
        None => String::new(),
    };
    let version = match version {
        Some(v) => unquote(v.as_str()),
        None => String::new(),
    };
    OsRelease { id, version, codename }
}

/// What the identification file with these lines says of the host.
pub open spec fn os_release(lines: Seq<Seq<char>>) -> OsReleaseView {
    os_release_of(
        field(ID_PATTERN@, lines),
        field(VERSION_ID_PATTERN@, lines),
        field(CODENAME_PATTERN@, lines),
    )
}

/// Whether the reading of an identification file of `count` lines is held
/// up by one of the three patterns for its fields.
pub open spec fn fields_blocked(count: nat) -> bool {
    blocked(ID_PATTERN@, count) || blocked(VERSION_ID_PATTERN@, count) || blocked(
        CODENAME_PATTERN@,
        count,
    )
}

/// Reads the three fields of the identification file. Fails with
/// `BadPattern` exactly if the file has lines and one of the three
/// patterns is not accepted.
pub fn read_os_release(lines: &Vec<String>) -> (r: Result<OsRelease, RigError>)
    ensures
        match r {
            Ok(f) => !fields_blocked(lines@.len()) && f@ == os_release(texts(lines@)),
            Err(e) => fields_blocked(lines@.len()) && e@ == ErrorView::BadPattern,
        },
{
    let id = read_field(ID_PATTERN, lines)?;
    let version = read_field(VERSION_ID_PATTERN, lines)?;
    let codename = read_field(CODENAME_PATTERN, lines)?;
    Ok(os_release_from(id, version, codename))
}

/// The Debian release that a derivative is built on: the first line of
/// Debian's version file without its last dotted number, or `unknown` when
/// the file is missing or empty.
pub open spec fn debian_base(lines: Seq<Seq<char>>) -> Seq<char> {
    if lines.len() == 0 {
        UNKNOWN@
    } else {
        regex_replace(PATCH_PATTERN@, lines[0], Seq::<char>::empty())
    }
}

/// The Debian release that a derivative is built on; `lines` are those of
/// Debian's version file, none when there is no such file. Fails with
/// `BadPattern` exactly if there are lines and the pattern is not
/// accepted. A first line without a last dotted number is the release as
/// it stands.
pub fn debian_release(lines: &Vec<String>) -> (r: Result<String, RigError>)
    ensures
        match r {
            Ok(v) => !blocked(PATCH_PATTERN@, lines@.len()) && v@ == debian_base(texts(lines@)),
            Err(e) => blocked(PATCH_PATTERN@, lines@.len()) && e@ == ErrorView::BadPattern,
        },
        r matches Ok(v) ==> (lines@.len() > 0 && !regex_is_match(PATCH_PATTERN@, lines@[0]@) ==> v@
            == lines@[0]@),
{
    if lines.len() == 0 {
        Ok(String::from_str(UNKNOWN))
    } else {
        proof {
            reveal_strlit("");
            assert(""@ =~= Seq::<char>::empty());
        }
        replace(PATCH_PATTERN, lines[0].as_str(), "")
    }
}

/// Whether the Debian release that the host is built on has to be known to
/// match the host: it has for Deepin, and for no other distribution.
pub fn needs_debian_release(fields: &OsRelease) -> (r: bool)
    ensures
        r == (fields@.id == DEEPIN@),
{
    text_eq(fields.id.as_str(), DEEPIN)
}

/// The catalog entry for a distribution and release, if there is one.
pub open spec fn find_entry(entries: Seq<HostView>, distro: Seq<char>, version: Seq<char>) -> Option<
    HostView,
>
    decreases entries.len(),
{
    if entries.len() == 0 {
        None
    } else if entries.last().distro == distro && entries.last().version == version {
        Some(entries.last())
    } else {
        find_entry(entries.drop_last(), distro, version)
    }
}

/// The distribution and release by which the host is looked up first: its
/// own, or for Deepin the Debian release it is built on.
pub open spec fn own_identity(f: OsReleaseView, debian: Seq<char>) -> (Seq<char>, Seq<char>) {
    if f.id == DEEPIN@ {
        ("debian"@, debian)
    } else {
        (f.id, f.version)
    }
}

/// The Ubuntu release that a code name stands for; two empty texts for a
/// code name that is not known.
pub open spec fn codename_identity(codename: Seq<char>) -> (Seq<char>, Seq<char>) {
    if codename == "bionic"@ {
        ("ubuntu"@, "18.04"@)
    } else if codename == "focal"@ {
        ("ubuntu"@, "20.04"@)
    } else if codename == "jammy"@ {
        ("ubuntu"@, "22.04"@)
    } else {
        (Seq::<char>::empty(), Seq::<char>::empty())
    }
}

/// The host as the catalog knows it. It is looked up by its own identity
/// first. Only when that fails, and the file carries a code name, it is
/// looked up as the Ubuntu release of that code name. The failure names the
/// identity that was tried last.
pub open spec fn matched_host(arch: Arch, f: OsReleaseView, debian: Seq<char>) -> Result<
    HostView,
    ErrorView,
> {
    let own = own_identity(f, debian);
    match find_entry(catalog(arch), own.0, own.1) {
        Some(e) => Ok(e),
        None => match f.codename {
            Some(c) => {
                let base = codename_identity(c);
                match find_entry(catalog(arch), base.0, base.1) {
                    Some(e) => Ok(e),
                    None => Err(ErrorView::UnsupportedDistro { distro: base.0, version: base.1 }),
                }
            },
            None => Err(ErrorView::UnsupportedDistro { distro: f.id, version: f.version }),
        },
    }
}

/// What a result says, with its texts as character sequences.
pub open spec fn host_outcome(r: Result<LinuxVersion, RigError>) -> Result<HostView, ErrorView> {
    match r {
        Ok(h) => Ok(h@),
        Err(e) => Err(e@),
    }
}

fn lookup(entries: &Vec<LinuxVersion>, distro: &str, version: &str) -> (r: Option<LinuxVersion>)
    ensures
        match r {
            Some(h) => find_entry(entries.deep_view(), distro@, version@) == Some(h@),
            None => find_entry(entries.deep_view(), distro@, version@) is None,
        },
{
    let ghost all = entries.deep_view();
    let mut i: usize = entries.len();
    assert(all.take(i as int) =~= all);
    while i > 0
        invariant
            i <= entries.len(),
            all == entries.deep_view(),
            find_entry(all, distro@, version@) == find_entry(all.take(i as int), distro@, version@),
        decreases i,
    {
        let e = &entries[i - 1];
        assert(all.take(i as int).last() == e@);
        assert(all.take(i as int).drop_last() =~= all.take(i - 1));
        if text_eq(e.distro.as_str(), distro) && text_eq(e.version.as_str(), version) {
            return Some(e.duplicate());
        }
        i -= 1;
    }
    None
}

fn codename_release(codename: &str) -> (r: (String, String))
    ensures
        (r.0@, r.1@) == codename_identity(codename@),
{
    if text_eq(codename, "bionic") {
        (String::from_str("ubuntu"), String::from_str("18.04"))
    } else if text_eq(codename, "focal") {
        (String::from_str("ubuntu"), String::from_str("20.04"))
    } else if text_eq(codename, "jammy") {
        (String::from_str("ubuntu"), String::from_str("22.04"))
    } else {
        (String::new(), String::new())
    }
}

/// Matches what the identification file says with the catalog for `arch`.
/// `debian` is the Debian release that the host is built on; it is looked
/// at for Deepin only. Succeeds with the catalog entry of the host, or of
/// the Ubuntu release that the host derives from, and fails with
/// `UnsupportedDistro` when there is neither.
pub fn match_host(fields: &OsRelease, debian: &str, arch: Arch) -> (r: Result<
    LinuxVersion,
    RigError,
>)
    ensures
        host_outcome(r) == matched_host(arch, fields@, debian@),
{
    let first = if text_eq(fields.id.as_str(), DEEPIN) {
        lookup(&list_supported_distros(arch), "debian", debian)
    } else {
        lookup(&list_supported_distros(arch), fields.id.as_str(), fields.version.as_str())
    };
    match first {
        Some(h) => Ok(h),
        None => match &fields.codename {
            Some(c) => {
                let base = codename_release(c.as_str());
                match lookup(&list_supported_distros(arch), base.0.as_str(), base.1.as_str()) {
                    Some(h) => Ok(h),
                    None => Err(RigError::UnsupportedDistro { distro: base.0, version: base.1 }),
                }
            },
            None => Err(
                RigError::UnsupportedDistro {
                    distro: fields.id.clone(),
                    version: fields.version.clone(),
                },
            ),
        },
    }
}

/// The host that identification files with these lines describe.
pub open spec fn detected(arch: Arch, lines: Seq<Seq<char>>, debian_lines: Seq<Seq<char>>) -> Result<
    HostView,
    ErrorView,
> {
    matched_host(arch, os_release(lines), debian_base(debian_lines))
}

/// Whether detection is held up by a pattern: by one of those for the
/// fields of the identification file, or, for Deepin, by the one for
/// Debian's version file.
pub open spec fn detection_blocked(lines: Seq<Seq<char>>, debian_lines: Seq<Seq<char>>) -> bool {
    fields_blocked(lines.len()) || (os_release(lines).id == DEEPIN@ && blocked(
        PATCH_PATTERN@,
        debian_lines.len(),
    ))
}

/// Detects the host: `lines` are those of the identification file,
/// `debian_lines` those of Debian's version file (none when the host has no
/// such file), `arch` is the architecture to take the package URL for.
///
/// The result is the one that `detected` gives. Only where a pattern that
/// is needed is not accepted, it fails with `BadPattern` instead.
pub fn detect_linux(lines: &Vec<String>, debian_lines: &Vec<String>, arch: Arch) -> (r: Result<
    LinuxVersion,
    RigError,
>)
    ensures
        host_outcome(r) == if detection_blocked(texts(lines@), texts(debian_lines@)) {
            Err::<HostView, ErrorView>(ErrorView::BadPattern)
        } else {
            detected(arch, texts(lines@), texts(debian_lines@))
        },
        regex_accepts(ID_PATTERN@) && regex_accepts(VERSION_ID_PATTERN@) && regex_accepts(
            CODENAME_PATTERN@,
        ) && regex_accepts(PATCH_PATTERN@) ==> host_outcome(r) == detected(
            arch,
            texts(lines@),
            texts(debian_lines@),
        ),
{
    let fields = read_os_release(lines)?;
    if needs_debian_release(&fields) {
        let debian = debian_release(debian_lines)?;
        match_host(&fields, debian.as_str(), arch)
    } else {
        match_host(&fields, UNKNOWN, arch)
    }
}

proof fn lemma_catalog_names_differ()
    ensures
        "ubuntu"@ != "debian"@,
        "ubuntu"@ != DEEPIN@,
        "debian"@ != DEEPIN@,
        "18.04"@ != "20.04"@,
        "18.04"@ != "22.04"@,
        "20.04"@ != "22.04"@,
        "9"@ != "10"@,
        "9"@ != "11"@,
        "10"@ != "11"@,
{
    reveal_strlit("ubuntu");
    reveal_strlit("debian");
    reveal_strlit("Deepin");
    reveal_strlit("18.04");
    reveal_strlit("20.04");
    reveal_strlit("22.04");
    reveal_strlit("9");
    reveal_strlit("10");
    reveal_strlit("11");
    assert("ubuntu"@[0] == 'u' && "debian"@[0] == 'd' && DEEPIN@[0] == 'D');
    assert("18.04"@[0] == '1' && "20.04"@[0] == '2' && "22.04"@[0] == '2');
    assert("20.04"@[1] == '0' && "22.04"@[1] == '2');
    assert("9"@.len() == 1 && "10"@.len() == 2 && "11"@.len() == 2);
    assert("10"@[1] == '0' && "11"@[1] == '1');
}

/// Each release of the catalog is found under its own distribution and
/// release: no two entries share both.
pub proof fn lemma_catalog_keys_distinct(arch: Arch, i: int)
    requires
        0 <= i < catalog(arch).len(),
    ensures
        find_entry(catalog(arch), catalog(arch)[i].distro, catalog(arch)[i].version) == Some(
            catalog(arch)[i],
        ),
        catalog(arch)[i].distro != DEEPIN@,
{
    lemma_catalog_names_differ();
    let c = catalog(arch);
    let d = c[i].distro;
    let v = c[i].version;
    let c5 = c.drop_last();
    let c4 = c5.drop_last();
    let c3 = c4.drop_last();
    let c2 = c3.drop_last();
    let c1 = c2.drop_last();
    assert(c.last() == c[5] && c5.last() == c[4] && c4.last() == c[3] && c3.last() == c[2]
        && c2.last() == c[1] && c1.last() == c[0]);
    assert(find_entry(c1, d, v) == if i == 0 {
        Some(c[0])
    } else {
        None::<HostView>
    }) by {
        assert(find_entry(c1.drop_last(), d, v) is None);
    }
    assert(find_entry(c2, d, v) == if i <= 1 {
        Some(c[i])
    } else {
        None::<HostView>
    });
    assert(find_entry(c3, d, v) == if i <= 2 {
        Some(c[i])
    } else {
        None::<HostView>
    });
    assert(find_entry(c4, d, v) == if i <= 3 {
        Some(c[i])
    } else {
        None::<HostView>
    });
    assert(find_entry(c5, d, v) == if i <= 4 {
        Some(c[i])
    } else {
        None::<HostView>
    });
}

/// A host whose identification file gives the distribution and release of
/// a catalog entry is detected as exactly that entry, whatever else the
/// files hold.
pub proof fn catalog_host_is_detected(
    arch: Arch,
    lines: Seq<Seq<char>>,
    debian_lines: Seq<Seq<char>>,
    i: int,
)
    requires
        0 <= i < catalog(arch).len(),
        os_release(lines).id == catalog(arch)[i].distro,
        os_release(lines).version == catalog(arch)[i].version,
    ensures
        detected(arch, lines, debian_lines) == Ok::<HostView, ErrorView>(catalog(arch)[i]),
{
    lemma_catalog_keys_distinct(arch, i);
}

/// A host that the catalog does not know by its own identity, but whose
/// identification file carries the code name of a supported Ubuntu release,
/// is detected as that Ubuntu release.
pub proof fn ubuntu_derivative_is_detected(
    arch: Arch,
    lines: Seq<Seq<char>>,
    debian_lines: Seq<Seq<char>>,
    codename: Seq<char>,
)
    requires
        ({
            let own = own_identity(os_release(lines), debian_base(debian_lines));
            find_entry(catalog(arch), own.0, own.1) is None
        }),
        os_release(lines).codename == Some(codename),
        codename == "bionic"@ || codename == "focal"@ || codename == "jammy"@,
    ensures
        detected(arch, lines, debian_lines) matches Ok(e) && e.distro == "ubuntu"@ && e.version
            == codename_identity(codename).1 && find_entry(catalog(arch), e.distro, e.version)
            == Some(e),
{
    reveal_strlit("bionic");
    reveal_strlit("focal");
    reveal_strlit("jammy");
    let base = codename_identity(codename);
    if codename == "bionic"@ {
        assert(catalog(arch)[0].distro == base.0 && catalog(arch)[0].version == base.1);
        lemma_catalog_keys_distinct(arch, 0);
    } else if codename == "focal"@ {
        assert(catalog(arch)[1].distro == base.0 && catalog(arch)[1].version == base.1);
        lemma_catalog_keys_distinct(arch, 1);
    } else {
        assert(catalog(arch)[2].distro == base.0 && catalog(arch)[2].version == base.1);
        lemma_catalog_keys_distinct(arch, 2);
    }
}

/// A host that the catalog knows neither by its own identity nor by a code
/// name is rejected as unsupported.
pub proof fn unmatched_host_is_rejected(
    arch: Arch,
    lines: Seq<Seq<char>>,
    debian_lines: Seq<Seq<char>>,
)
    requires
        ({
            let own = own_identity(os_release(lines), debian_base(debian_lines));
            find_entry(catalog(arch), own.0, own.1) is None
        }),
        os_release(lines).codename matches Some(c) ==> find_entry(
            catalog(arch),
            codename_identity(c).0,
            codename_identity(c).1,
        ) is None,
    ensures
        detected(arch, lines, debian_lines) matches Err(e) && e is UnsupportedDistro,
{
}

/// Whatever is detected is an entry of the catalog.
pub proof fn detected_host_is_in_catalog(
    arch: Arch,
    lines: Seq<Seq<char>>,
    debian_lines: Seq<Seq<char>>,
)
    ensures
        detected(arch, lines, debian_lines) matches Ok(e) ==> catalog(arch).contains(e),
{
    let own = own_identity(os_release(lines), debian_base(debian_lines));
    lemma_found_entry_is_member(catalog(arch), own.0, own.1);
    match os_release(lines).codename {
        Some(c) => {
            let base = codename_identity(c);
            lemma_found_entry_is_member(catalog(arch), base.0, base.1);
        },
        None => {},
    }
}

proof fn lemma_found_entry_is_member(entries: Seq<HostView>, distro: Seq<char>, version: Seq<char>)
    ensures
        find_entry(entries, distro, version) matches Some(e) ==> entries.contains(e) && e.distro
            == distro && e.version == version,
    decreases entries.len(),
{
    if entries.len() > 0 {
        lemma_found_entry_is_member(entries.drop_last(), distro, version);
        match find_entry(entries.drop_last(), distro, version) {
            Some(e) => {
                let k = choose|k: int|
                    0 <= k < entries.drop_last().len() && entries.drop_last()[k] == e;
                assert(entries[k] == e);
            },
            None => {},
        }
        assert(entries[entries.len() - 1] == entries.last());
    }
}

/// Detection succeeds exactly when an identity of the host is in the
/// catalog: its own, or else the one that its code name stands for.
pub proof fn detection_succeeds_exactly_on_a_match(
    arch: Arch,
    lines: Seq<Seq<char>>,
    debian_lines: Seq<Seq<char>>,
)
    ensures
        detected(arch, lines, debian_lines) is Ok <==> ({
            let own = own_identity(os_release(lines), debian_base(debian_lines));
            find_entry(catalog(arch), own.0, own.1) is Some || (os_release(lines).codename matches Some(
                c,
            ) && find_entry(catalog(arch), codename_identity(c).0, codename_identity(c).1)
                is Some)
        }),
        detected(arch, lines, debian_lines) matches Err(e) ==> e is UnsupportedDistro,
{
}

} // verus!
