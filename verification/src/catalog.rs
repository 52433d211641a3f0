//! The distributions for which packages exist, and where they are found.

use vstd::prelude::*;
use vstd::string::StringExecFns;

verus! {

/// The processor architectures for which packages are built.
#[derive(Clone, Copy, Debug, PartialEq, Eq, Structural)]
pub enum Arch {
    /// 64-bit x86: packages come from the vendor's download site.
    X86_64,
    /// 64-bit ARM: packages come from a release page.
    Aarch64,
}

/// A distribution release together with its package source: an entry of the
/// catalog, or the host once it was matched with one.
#[derive(Clone, Debug)]
pub struct LinuxVersion {
    /// The distribution's id, in lower case.
    pub distro: String,
    /// The release, as `major.minor` or a bare major number.
    pub version: String,
    /// The package URL; each `{}` in it stands for the R version.
    pub url: String,
    /// Whether the binary package mirror serves this release.
    pub rspm: bool,
    /// The repository URL of the binary package mirror, empty without one.
    pub rspm_url: String,
}

/// A `LinuxVersion` with its texts as character sequences.
pub struct HostView {
    pub distro: Seq<char>,
    pub version: Seq<char>,
    pub url: Seq<char>,
    pub rspm: bool,
    pub rspm_url: Seq<char>,
}

impl View for LinuxVersion {
    type V = HostView;

    open spec fn view(&self) -> HostView {
        HostView {
            distro: self.distro@,
            version: self.version@,
            url: self.url@,
            rspm: self.rspm,
            rspm_url: self.rspm_url@,
        }
    }
}

impl DeepView for LinuxVersion {
    type V = HostView;

    open spec fn deep_view(&self) -> HostView {
        self@
    }
}

pub const UBUNTU_1804_URL_X86_64: &'static str =
    "https://cdn.rstudio.com/r/ubuntu-1804/pkgs/r-{}_1_amd64.deb";

pub const UBUNTU_2004_URL_X86_64: &'static str =
    "https://cdn.rstudio.com/r/ubuntu-2004/pkgs/r-{}_1_amd64.deb";

pub const UBUNTU_2204_URL_X86_64: &'static str =
    "https://cdn.rstudio.com/r/ubuntu-2204/pkgs/r-{}_1_amd64.deb";

pub const DEBIAN_9_URL_X86_64: &'static str =
    "https://cdn.rstudio.com/r/debian-9/pkgs/r-{}_1_amd64.deb";

pub const DEBIAN_10_URL_X86_64: &'static str =
    "https://cdn.rstudio.com/r/debian-10/pkgs/r-{}_1_amd64.deb";

pub const DEBIAN_11_URL_X86_64: &'static str =
    "https://cdn.rstudio.com/r/debian-11/pkgs/r-{}_1_amd64.deb";

pub const UBUNTU_1804_URL_AARCH64: &'static str =
    "https://github.com/r-hub/R/releases/download/v{}/R-rstudio-ubuntu-1804-{}_1_arm64.deb";

pub const UBUNTU_2004_URL_AARCH64: &'static str =
    "https://github.com/r-hub/R/releases/download/v{}/R-rstudio-ubuntu-2004-{}_1_arm64.deb";

pub const UBUNTU_2204_URL_AARCH64: &'static str =
    "https://github.com/r-hub/R/releases/download/v{}/R-rstudio-ubuntu-2204-{}_1_arm64.deb";

pub const DEBIAN_9_URL_AARCH64: &'static str =
    "https://github.com/r-hub/R/releases/download/v{}/R-rstudio-debian-9-{}_1_arm64.deb";

pub const DEBIAN_10_URL_AARCH64: &'static str =
    "https://github.com/r-hub/R/releases/download/v{}/R-rstudio-debian-10-{}_1_arm64.deb";

pub const DEBIAN_11_URL_AARCH64: &'static str =
    "https://github.com/r-hub/R/releases/download/v{}/R-rstudio-debian-11-{}_1_arm64.deb";

pub const UBUNTU_1804_RSPM: &'static str =
    "https://packagemanager.rstudio.com/all/__linux__/bionic/latest";

pub const UBUNTU_2004_RSPM: &'static str =
    "https://packagemanager.rstudio.com/all/__linux__/focal/latest";

pub const UBUNTU_2204_RSPM: &'static str =
    "https://packagemanager.rstudio.com/all/__linux__/jammy/latest";

/// One row of the catalog: the same release for either architecture.
pub open spec fn entry(
    arch: Arch,
    distro: Seq<char>,
    version: Seq<char>,
    url_x86_64: Seq<char>,
    url_aarch64: Seq<char>,
    rspm: bool,
    rspm_url: Seq<char>,
) -> HostView {
    HostView {
        distro,
        version,
        url: match arch {
            Arch::X86_64 => url_x86_64,
            Arch::Aarch64 => url_aarch64,
        },
        rspm,
        rspm_url,
    }
}

/// The catalog: every supported release, with the package URL for `arch`.
pub open spec fn catalog(arch: Arch) -> Seq<HostView> {
    seq![
        entry(arch, "ubuntu"@, "18.04"@, UBUNTU_1804_URL_X86_64@, UBUNTU_1804_URL_AARCH64@, true, UBUNTU_1804_RSPM@),
        entry(arch, "ubuntu"@, "20.04"@, UBUNTU_2004_URL_X86_64@, UBUNTU_2004_URL_AARCH64@, true, UBUNTU_2004_RSPM@),
        entry(arch, "ubuntu"@, "22.04"@, UBUNTU_2204_URL_X86_64@, UBUNTU_2204_URL_AARCH64@, true, UBUNTU_2204_RSPM@),
        entry(arch, "debian"@, "9"@, DEBIAN_9_URL_X86_64@, DEBIAN_9_URL_AARCH64@, false, ""@),
        entry(arch, "debian"@, "10"@, DEBIAN_10_URL_X86_64@, DEBIAN_10_URL_AARCH64@, false, ""@),
        entry(arch, "debian"@, "11"@, DEBIAN_11_URL_X86_64@, DEBIAN_11_URL_AARCH64@, false, ""@),
    ]
}

fn make_entry(
    arch: Arch,
    distro: &str,
    version: &str,
    url_x86_64: &str,
    url_aarch64: &str,
    rspm: bool,
    rspm_url: &str,
) -> (r: LinuxVersion)
    ensures
        r@ == entry(arch, distro@, version@, url_x86_64@, url_aarch64@, rspm, rspm_url@),
{
    let url = match arch {
        Arch::X86_64 => url_x86_64,
        Arch::Aarch64 => url_aarch64,
    };
    LinuxVersion {
        distro: String::from_str(distro),
        version: String::from_str(version),
        url: String::from_str(url),
        rspm,
        rspm_url: String::from_str(rspm_url),
    }
}

/// The catalog as values: the supported releases in a fixed order, each
/// with the package URL that holds for `arch`.
pub fn list_supported_distros(arch: Arch) -> (r: Vec<LinuxVersion>)
    ensures
        r.deep_view() == catalog(arch),
{
    let mut v: Vec<LinuxVersion> = Vec::new();
    v.push(make_entry(arch, "ubuntu", "18.04", UBUNTU_1804_URL_X86_64, UBUNTU_1804_URL_AARCH64, true, UBUNTU_1804_RSPM));
    v.push(make_entry(arch, "ubuntu", "20.04", UBUNTU_2004_URL_X86_64, UBUNTU_2004_URL_AARCH64, true, UBUNTU_2004_RSPM));
    v.push(make_entry(arch, "ubuntu", "22.04", UBUNTU_2204_URL_X86_64, UBUNTU_2204_URL_AARCH64, true, UBUNTU_2204_RSPM));
    v.push(make_entry(arch, "debian", "9", DEBIAN_9_URL_X86_64, DEBIAN_9_URL_AARCH64, false, ""));
    v.push(make_entry(arch, "debian", "10", DEBIAN_10_URL_X86_64, DEBIAN_10_URL_AARCH64, false, ""));
    v.push(make_entry(arch, "debian", "11", DEBIAN_11_URL_X86_64, DEBIAN_11_URL_AARCH64, false, ""));
    assert(v.deep_view() =~= catalog(arch));
    v
}

impl LinuxVersion {
    /// A copy of this value.
    pub fn duplicate(&self) -> (r: LinuxVersion)
        ensures
            r@ == self@,
    {
        LinuxVersion {
            distro: self.distro.clone(),
            version: self.version.clone(),
            url: self.url.clone(),
            rspm: self.rspm,
            rspm_url: self.rspm_url.clone(),
        }
    }

    /// A value that names no distribution.
    pub fn unknown() -> (r: LinuxVersion)
        ensures
            r@ == unknown_host(),
    {
        LinuxVersion {
            distro: String::new(),
            version: String::new(),
            url: String::new(),
            rspm: false,
            rspm_url: String::new(),
        }
    }
}

/// The host of which nothing is known yet.
pub open spec fn unknown_host() -> HostView {
    HostView {
        distro: Seq::<char>::empty(),
        version: Seq::<char>::empty(),
        url: Seq::<char>::empty(),
        rspm: false,
        rspm_url: Seq::<char>::empty(),
    }
}

} // verus!
