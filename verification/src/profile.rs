//! The startup profile of each installed version, and the settings that
//! are added to it: the package mirror, the binary package mirror, and
//! the automatic installation of system requirements.

use crate::action::success;
use crate::action::Action;
use crate::action::ActionView;
use crate::action::Plan;
use crate::action::PlanView;
use crate::catalog::Arch;
use crate::catalog::LinuxVersion;
use crate::error::ErrorView;
use crate::paths::get_version_dir;
use crate::paths::join;
use crate::paths::profile_path;
use crate::paths::PROFILE;
use crate::registry::check_installed;
use crate::registry::installed;
use crate::registry::is_installation;
use crate::registry::is_installed;
use crate::registry::sc_get_list;
use crate::registry::RootEntry;
use crate::registry::RootEntryView;
use crate::text::concat2;
use crate::text::concat3;
use crate::text::copy_texts;
use crate::text::text_eq;
use crate::text::texts;
use vstd::prelude::*;
use vstd::string::StringExecFns;

verus! {

/// The line that makes the cloud mirror the default package repository.
pub const CLOUD_MIRROR: &'static str =
    "options(repos = c(CRAN = \"https://cloud.r-project.org\"))";

/// What stands before the repository URL in the settings for the binary
/// package mirror.
pub const RSPM_HEAD: &'static str = "\noptions(repos = c(RSPM=\"";

/// What stands behind the repository URL in the settings for the binary
/// package mirror.
pub const RSPM_TAIL: &'static str =
    "\", getOption(\"repos\")))\noptions(HTTPUserAgent = sprintf(\"R/%s R (%s)\", getRversion(), paste(getRversion(), R.version$platform, R.version$arch, R.version$os)))\n";

/// The setting that switches on the installation of system requirements.
pub const SYSREQS: &'static str = "\nSys.setenv(PKG_SYSREQS = \"true\")\n";

/// The message for an architecture that the binary package mirror does not
/// serve; the architecture's name follows it.
pub const RSPM_NO_ARCH: &'static str = "RSPM does not support this architecture: ";

/// The message for a release that the binary package mirror does not
/// serve; distribution and release follow it.
pub const RSPM_NO_DISTRO: &'static str = "RSPM (or rig) does not support this distro: ";

/// The message for a host without support for system requirements;
/// distribution and release follow it.
pub const SYSREQS_NO_DISTRO: &'static str =
    "Skipping optional sysreqs setup, no sysreqs support for this distro: ";

/// The distribution for which system requirements can be installed.
pub const SYSREQS_DISTRO: &'static str = "ubuntu";

/// The name of an architecture, as the system reports it.
pub open spec fn arch_name(arch: Arch) -> Seq<char> {
    match arch {
        Arch::X86_64 => "x86_64"@,
        Arch::Aarch64 => "aarch64"@,
    }
}

/// The name of `arch`, as the system reports it.
pub fn get_arch_name(arch: Arch) -> (r: &'static str)
    ensures
        r@ == arch_name(arch),
{
    match arch {
        Arch::X86_64 => "x86_64",
        Arch::Aarch64 => "aarch64",
    }
}

/// The architecture with the name `name`, if packages are built for it.
pub fn arch_from_name(name: &str) -> (r: Option<Arch>)
    ensures
        match r {
            Some(arch) => name@ == arch_name(arch),
            None => name@ != arch_name(Arch::X86_64) && name@ != arch_name(Arch::Aarch64),
        },
{
    if text_eq(name, "x86_64") {
        Some(Arch::X86_64)
    } else if text_eq(name, "aarch64") {
        Some(Arch::Aarch64)
    } else {
        None
    }
}

/// Whether the installation of `version` has a startup profile.
pub open spec fn has_profile(root: Seq<RootEntryView>, version: Seq<char>) -> bool {
    exists|i: int|
        0 <= i < root.len() && is_installation(root[i]) && root[i].name == version
            && root[i].has_profile
}

/// The versions that a setting is written for: those asked for, or all
/// installed ones when none are named.
pub open spec fn chosen(vers: Option<Seq<Seq<char>>>, root: Seq<RootEntryView>) -> Seq<Seq<char>> {
    match vers {
        Some(list) => list,
        None => installed(root),
    }
}

/// The plan that adds `lines` to the profile of each of `versions`, in
/// their order. A version without a profile is passed over. The first
/// version that is not installed ends the plan with `NotInstalled`, after
/// the profiles before it.
pub open spec fn appends(
    versions: Seq<Seq<char>>,
    root: Seq<RootEntryView>,
    lines: Seq<Seq<char>>,
) -> PlanView
    decreases versions.len(),
{
    if versions.len() == 0 {
        success(Seq::<ActionView>::empty())
    } else {
        let before = appends(versions.drop_last(), root, lines);
        let version = versions.last();
        if before.failure is Some {
            before
        } else if !is_installed(root, version) {
            PlanView {
                actions: before.actions,
                failure: Some(ErrorView::NotInstalled { version }),
            }
        } else if !has_profile(root, version) {
            before
        } else {
            success(before.actions.push(ActionView::Append { path: profile_path(version), lines }))
        }
    }
}

fn profile_exists(root: &Vec<RootEntry>, version: &str) -> (r: bool)
    ensures
        r == has_profile(root.deep_view(), version@),
{
    let mut i: usize = 0;
    while i < root.len()
        invariant
            i <= root.len(),
            forall|k: int|
                0 <= k < i ==> !(is_installation(#[trigger] root.deep_view()[k])
                    && root.deep_view()[k].name == version@ && root.deep_view()[k].has_profile),
        decreases root.len() - i,
    {
        let e = &root[i];
        assert(root.deep_view()[i as int] == e@);
        if e.has_binary && e.has_profile && text_eq(e.name.as_str(), version) && !text_eq(
            e.name.as_str(),
            crate::registry::CURRENT,
        ) {
            return true;
        }
        i += 1;
    }
    false
}

/// Plans adding `lines` to the profile of each of `versions`; `root` is a
/// scan of the installation root.
pub fn append_to_profiles(versions: &Vec<String>, root: &Vec<RootEntry>, lines: &Vec<String>) -> (r:
    Plan)
    ensures
        r@ == appends(texts(versions@), root.deep_view(), texts(lines@)),
{
    let mut actions: Vec<Action> = Vec::new();
    let ghost all = texts(versions@);
    let mut i: usize = 0;
    assert(all.take(0) =~= Seq::<Seq<char>>::empty());
    assert(actions.deep_view() =~= Seq::<ActionView>::empty());
    while i < versions.len()
        invariant
            i <= versions.len(),
            all == texts(versions@),
            success(actions.deep_view()) == appends(
                all.take(i as int),
                root.deep_view(),
                texts(lines@),
            ),
        decreases versions.len() - i,
    {
        proof {
            assert(all.take(i + 1).drop_last() =~= all.take(i as int));
            assert(all.take(i + 1).last() == versions@[i as int]@);
        }
        let ver = match check_installed(versions[i].as_str(), root) {
            Ok(v) => v,
            Err(e) => {
                proof {
                    lemma_appends_stay_failed(all, i + 1, root.deep_view(), texts(lines@));
                }
                return Plan { actions, failure: Some(e) };
            },
        };
        if profile_exists(root, ver.as_str()) {
            let path = join(get_version_dir(ver.as_str()).as_str(), PROFILE);
            let ghost before = actions.deep_view();
            let step = Action::Append { path, lines: copy_texts(lines) };
            actions.push(step);
            assert(actions.deep_view() =~= before.push(step@));
        }
        i += 1;
    }
    assert(all.take(i as int) =~= all);
    Plan { actions, failure: None }
}

proof fn lemma_appends_stay_failed(
    versions: Seq<Seq<char>>,
    n: int,
    root: Seq<RootEntryView>,
    lines: Seq<Seq<char>>,
)
    requires
        0 <= n <= versions.len(),
        appends(versions.take(n), root, lines).failure is Some,
    ensures
        appends(versions, root, lines) == appends(versions.take(n), root, lines),
    decreases versions.len() - n,
{
    if n < versions.len() {
        assert(versions.take(n + 1).drop_last() =~= versions.take(n));
        lemma_appends_stay_failed(versions, n + 1, root, lines);
    } else {
        assert(versions.take(n) =~= versions);
    }
}

fn chosen_versions(vers: Option<&Vec<String>>, root: &Vec<RootEntry>) -> (r: Vec<String>)
    ensures
        texts(r@) == chosen(
            match vers {
                Some(list) => Some(texts(list@)),
                None => None,
            },
            root.deep_view(),
        ),
{
    match vers {
        Some(list) => copy_texts(list),
        None => sc_get_list(root),
    }
}

/// The views of a list of versions that may be left out.
pub open spec fn version_texts(vers: Option<&Vec<String>>) -> Option<Seq<Seq<char>>> {
    match vers {
        Some(list) => Some(texts(list@)),
        None => None,
    }
}

/// Plans making the cloud mirror the default package repository of `vers`,
/// or of all installed versions when none are named; `root` is a scan of
/// the installation root.
pub fn set_cloud_mirror(vers: Option<&Vec<String>>, root: &Vec<RootEntry>) -> (r: Plan)
    ensures
        r@ == appends(chosen(version_texts(vers), root.deep_view()), root.deep_view(), seq![CLOUD_MIRROR@]),
{
    let versions = chosen_versions(vers, root);
    let mut lines: Vec<String> = Vec::new();
    lines.push(String::from_str(CLOUD_MIRROR));
    assert(texts(lines@) =~= seq![CLOUD_MIRROR@]);
    append_to_profiles(&versions, root, &lines)
}

/// A distribution and its release, as messages name them.
pub open spec fn host_name(distro: Seq<char>, version: Seq<char>) -> Seq<char> {
    distro + " "@ + version
}

/// The settings for the binary package mirror at `url`.
pub open spec fn rspm_settings(url: Seq<char>) -> Seq<char> {
    RSPM_HEAD@ + url + RSPM_TAIL@
}

/// The plan that sets up the binary package mirror. The mirror serves one
/// architecture only, and not every release: for any other host the plan
/// is a message and nothing else.
pub open spec fn rspm_plan(
    vers: Option<Seq<Seq<char>>>,
    host: crate::catalog::HostView,
    arch: Arch,
    root: Seq<RootEntryView>,
) -> PlanView {
    if arch != Arch::X86_64 {
        success(seq![ActionView::Inform { message: RSPM_NO_ARCH@ + arch_name(arch) }])
    } else if !host.rspm {
        success(
            seq![
                ActionView::Inform {
                    message: RSPM_NO_DISTRO@ + host_name(host.distro, host.version),
                },
            ],
        )
    } else {
        appends(chosen(vers, root), root, seq![rspm_settings(host.rspm_url)])
    }
}

fn inform(message: String) -> (r: Plan)
    ensures
        r@ == success(seq![ActionView::Inform { message: message@ }]),
{
    let mut actions: Vec<Action> = Vec::new();
    let step = Action::Inform { message };
    actions.push(step);
    assert(actions.deep_view() =~= seq![step@]);
    Plan { actions, failure: None }
}

/// Plans setting up the binary package mirror for `vers`, or for all
/// installed versions when none are named. `linux` is the detected host,
/// `arch` the architecture that R runs on, `root` a scan of the
/// installation root.
pub fn set_rspm(vers: Option<&Vec<String>>, linux: &LinuxVersion, arch: Arch, root: &Vec<RootEntry>) -> (r:
    Plan)
    ensures
        r@ == rspm_plan(version_texts(vers), linux@, arch, root.deep_view()),
{
    match arch {
        Arch::X86_64 => {},
        Arch::Aarch64 => {
            return inform(concat2(RSPM_NO_ARCH, get_arch_name(arch)));
        },
    }
    if !linux.rspm {
        let name = concat3(linux.distro.as_str(), " ", linux.version.as_str());
        return inform(concat2(RSPM_NO_DISTRO, name.as_str()));
    }
    let versions = chosen_versions(vers, root);
    let mut lines: Vec<String> = Vec::new();
    lines.push(concat3(RSPM_HEAD, linux.rspm_url.as_str(), RSPM_TAIL));
    assert(texts(lines@) =~= seq![rspm_settings(linux@.rspm_url)]);
    append_to_profiles(&versions, root, &lines)
}

/// Whether system requirements can be installed on a host: only on the
/// architecture and the releases that the binary package mirror serves,
/// and of these only on Ubuntu.
pub open spec fn supports_sysreqs(host: crate::catalog::HostView, arch: Arch) -> bool {
    arch == Arch::X86_64 && host.rspm && host.distro == SYSREQS_DISTRO@
}

/// The plan that switches on the installation of system requirements; for
/// a host without support for it the plan is a message and nothing else.
pub open spec fn sysreqs_plan(
    vers: Option<Seq<Seq<char>>>,
    host: crate::catalog::HostView,
    arch: Arch,
    root: Seq<RootEntryView>,
) -> PlanView {
    if !supports_sysreqs(host, arch) {
        success(
            seq![
                ActionView::Inform {
                    message: SYSREQS_NO_DISTRO@ + host_name(host.distro, host.version),
                },
            ],
        )
    } else {
        appends(chosen(vers, root), root, seq![SYSREQS@])
    }
}

/// Plans switching on the installation of system requirements for `vers`,
/// or for all installed versions when none are named. `linux` is the
/// detected host, `arch` the architecture that R runs on, `root` a scan of
/// the installation root.
pub fn set_sysreqs(vers: Option<&Vec<String>>, linux: &LinuxVersion, arch: Arch, root: &Vec<RootEntry>) -> (r:
    Plan)
    ensures
        r@ == sysreqs_plan(version_texts(vers), linux@, arch, root.deep_view()),
{
    let right_arch = match arch {
        Arch::X86_64 => true,
        Arch::Aarch64 => false,
    };
    if !right_arch || !linux.rspm || !text_eq(linux.distro.as_str(), SYSREQS_DISTRO) {
        let name = concat3(linux.distro.as_str(), " ", linux.version.as_str());
        return inform(concat2(SYSREQS_NO_DISTRO, name.as_str()));
    }
    let versions = chosen_versions(vers, root);
    let mut lines: Vec<String> = Vec::new();
    lines.push(String::from_str(SYSREQS));
    assert(texts(lines@) =~= seq![SYSREQS@]);
    append_to_profiles(&versions, root, &lines)
}

} // verus!
