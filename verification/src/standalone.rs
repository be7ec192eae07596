//! The standalone installers: binaries distributed as single files —
//! the package-registry CLI fetched from its own tagged releases, a
//! generic single-file installer for other repositories, and the
//! storage-node binary served from a fixed base URL.

use vstd::prelude::*;

use crate::errors::SuiupError;
use crate::release::spec_ensure_version_prefix;
use crate::strutil::{spec_starts_with, starts_with, str_eq};
use crate::types::Repo;

verus! {

/// One tagged release of a standalone binary.
#[derive(Debug, Clone)]
pub struct MvrRelease {
    pub tag_name: String,
    pub assets: Vec<MvrAsset>,
}

/// One downloadable file of a standalone release.
#[derive(Debug, Clone)]
pub struct MvrAsset {
    pub name: String,
    pub browser_download_url: String,
}

/// Installs the standalone package-registry CLI from its own tagged
/// releases. The catalog is handed in once fetched; resolution and
/// asset selection are decided here.
pub struct MvrInstaller {
    pub releases: Vec<MvrRelease>,
}

impl MvrInstaller {
    /// An installer with no catalog fetched yet.
    pub fn new() -> (r: MvrInstaller)
        ensures
            r.releases@.len() == 0,
    {
        MvrInstaller { releases: Vec::new() }
    }

    /// Hands the installer the fetched catalog, newest release first;
    /// a catalog already present is kept.
    pub fn set_releases(&mut self, releases: Vec<MvrRelease>)
        ensures
            final(self).releases@ == if old(self).releases@.len() == 0 {
                releases@
            } else {
                old(self).releases@
            },
    {
        if self.releases.len() == 0 {
            self.releases = releases;
        }
    }

    /// The latest release: the first in catalog order.
    pub fn get_latest_release(&self) -> (r: Result<&MvrRelease, SuiupError>)
        ensures
            match r {
                Ok(rel) => self.releases@.len() > 0 && rel == self.releases@[0],
                Err(_) => self.releases@.len() == 0,
            },
    {
        if self.releases.len() > 0 {
            Ok(&self.releases[0])
        } else {
            Err(SuiupError::MvrNotFound)
        }
    }

    /// The tag to install: an explicit version with the `v` prefix the
    /// tags carry, or the latest release's tag.
    pub fn resolve_version(&self, version: Option<&String>) -> (r: Result<String, SuiupError>)
        ensures
            match r {
                Ok(v) => match version {
                    Some(x) => v@ == spec_ensure_version_prefix(x@),
                    None => self.releases@.len() > 0 && v@ == self.releases@[0].tag_name@,
                },
                Err(_) => version is None && self.releases@.len() == 0,
            },
    {
        match version {
            Some(x) => Ok(crate::release::ensure_version_prefix(x.as_str())),
            None => {
                match self.get_latest_release() {
                    Ok(rel) => Ok(rel.tag_name.clone()),
                    Err(e) => Err(e),
                }
            },
        }
    }

    /// The catalog position of the release with this tag, if any.
    pub fn find_release(&self, version: &str) -> (r: Result<usize, SuiupError>)
        ensures
            match r {
                Ok(i) => i < self.releases@.len() && self.releases@[i as int].tag_name@ == version@,
                Err(_) => forall|j: int|
                    0 <= j < self.releases@.len() ==> self.releases@[j].tag_name@ != version@,
            },
    {
        let mut i: usize = 0;
        while i < self.releases.len()
            invariant
                i <= self.releases@.len(),
                forall|j: int| 0 <= j < i ==> self.releases@[j].tag_name@ != version@,
            decreases self.releases@.len() - i,
        {
            if str_eq(self.releases[i].tag_name.as_str(), version) {
                return Ok(i);
            }
            i = i + 1;
        }
        Err(SuiupError::VersionNotFound(String::from_str(version)))
    }
}

/// The position of the first asset whose name starts with the prefix.
pub fn find_asset_with_prefix(assets: &Vec<MvrAsset>, prefix: &str) -> (r: Option<usize>)
    ensures
        match r {
            Some(i) => i < assets@.len() && spec_starts_with(assets@[i as int].name@, prefix@)
                && forall|j: int|
                0 <= j < i ==> !spec_starts_with(#[trigger] assets@[j].name@, prefix@),
            None => forall|j: int|
                0 <= j < assets@.len() ==> !spec_starts_with(#[trigger] assets@[j].name@, prefix@),
        },
{
    let mut i: usize = 0;
    while i < assets.len()
        invariant
            i <= assets@.len(),
            forall|j: int| 0 <= j < i ==> !spec_starts_with(#[trigger] assets@[j].name@, prefix@),
        decreases assets@.len() - i,
    {
        if starts_with(assets[i].name.as_str(), prefix) {
            return Some(i);
        }
        i = i + 1;
    }
    None
}

/// The asset-name prefix a standalone binary is published under:
/// the binary name, the OS token, and the architecture token.
pub fn standalone_asset_prefix(binary: &str, os: &str, arch: &str) -> (r: String)
    ensures
        r@ == binary@ + "-"@ + os@ + "-"@ + arch@,
{
    let mut s = String::from_str(binary);
    s.append("-");
    s.append(os);
    s.append("-");
    s.append(arch);
    proof {
        assert(s@ =~= binary@ + "-"@ + os@ + "-"@ + arch@);
    }
    s
}

/// One tagged release of a generic standalone binary.
#[derive(Debug, Clone)]
pub struct StandaloneRelease {
    pub tag_name: String,
    pub assets: Vec<StandaloneAsset>,
}

/// One downloadable file of a generic standalone release.
#[derive(Debug, Clone)]
pub struct StandaloneAsset {
    pub name: String,
    pub browser_download_url: String,
}

/// Installs a single-file binary from the tagged releases of an
/// arbitrary source repository.
pub struct StandaloneInstaller {
    pub releases: Vec<StandaloneRelease>,
    pub repo: Repo,
}

impl StandaloneInstaller {
    /// An installer for the given repository, with no catalog yet.
    pub fn new(repo: Repo) -> (r: StandaloneInstaller)
        ensures
            r.releases@.len() == 0,
            r.repo == repo,
    {
        StandaloneInstaller { releases: Vec::new(), repo }
    }

    /// Hands the installer the fetched catalog, newest release first;
    /// a catalog already present is kept.
    pub fn set_releases(&mut self, releases: Vec<StandaloneRelease>)
        ensures
            final(self).releases@ == if old(self).releases@.len() == 0 {
                releases@
            } else {
                old(self).releases@
            },
            final(self).repo == old(self).repo,
    {
        if self.releases.len() == 0 {
            self.releases = releases;
        }
    }

    /// The latest release: the first in catalog order.
    pub fn get_latest_release(&self) -> (r: Result<&StandaloneRelease, SuiupError>)
        ensures
            match r {
                Ok(rel) => self.releases@.len() > 0 && rel == self.releases@[0],
                Err(_) => self.releases@.len() == 0,
            },
    {
        if self.releases.len() > 0 {
            Ok(&self.releases[0])
        } else {
            Err(
                SuiupError::NoStandaloneReleases(String::from_str(self.repo.binary_name())),
            )
        }
    }

    /// The tag to install: an explicit version with the `v` prefix the
    /// tags carry, or the latest release's tag.
    pub fn resolve_version(&self, version: Option<&String>) -> (r: Result<String, SuiupError>)
        ensures
            match r {
                Ok(v) => match version {
                    Some(x) => v@ == spec_ensure_version_prefix(x@),
                    None => self.releases@.len() > 0 && v@ == self.releases@[0].tag_name@,
                },
                Err(_) => version is None && self.releases@.len() == 0,
            },
    {
        match version {
            Some(x) => Ok(crate::release::ensure_version_prefix(x.as_str())),
            None => {
                match self.get_latest_release() {
                    Ok(rel) => Ok(rel.tag_name.clone()),
                    Err(e) => Err(e),
                }
            },
        }
    }

    /// The catalog position of the release with this tag, if any.
    pub fn find_release(&self, version: &str) -> (r: Result<usize, SuiupError>)
        ensures
            match r {
                Ok(i) => i < self.releases@.len() && self.releases@[i as int].tag_name@ == version@,
                Err(_) => forall|j: int|
                    0 <= j < self.releases@.len() ==> self.releases@[j].tag_name@ != version@,
            },
    {
        let mut i: usize = 0;
        while i < self.releases.len()
            invariant
                i <= self.releases@.len(),
                forall|j: int| 0 <= j < i ==> self.releases@[j].tag_name@ != version@,
            decreases self.releases@.len() - i,
    {
            if str_eq(self.releases[i].tag_name.as_str(), version) {
                return Ok(i);
            }
            i = i + 1;
        }
        Err(SuiupError::VersionNotFound(String::from_str(version)))
    }
}

/// The platform flavors the storage-node binary is published for.
#[derive(Debug, Clone, Copy, PartialEq, Eq, Structural)]
pub enum WalrusArch {
    UbuntuX86_64,
    UbuntuX86_64Generic,
    MacosArm64,
    MacosX86_64,
    WindowsX86_64,
}

/// The file-name suffix a platform flavor is published under.
pub open spec fn spec_walrus_filename(a: WalrusArch) -> Seq<char> {
    match a {
        WalrusArch::UbuntuX86_64 => "ubuntu-x86_64"@,
        WalrusArch::UbuntuX86_64Generic => "ubuntu-x86_64-generic"@,
        WalrusArch::MacosArm64 => "macos-arm64"@,
        WalrusArch::MacosX86_64 => "macos-x86_64"@,
        WalrusArch::WindowsX86_64 => "windows-x86_64.exe"@,
    }
}

impl WalrusArch {
    /// The file-name suffix this flavor is published under.
    pub fn to_filename(&self) -> (r: String)
        ensures
            r@ == spec_walrus_filename(*self),
    {
        let s = match self {
            WalrusArch::UbuntuX86_64 => String::from_str("ubuntu-x86_64"),
            WalrusArch::UbuntuX86_64Generic => String::from_str("ubuntu-x86_64-generic"),
            WalrusArch::MacosArm64 => String::from_str("macos-arm64"),
            WalrusArch::MacosX86_64 => String::from_str("macos-x86_64"),
            WalrusArch::WindowsX86_64 => String::from_str("windows-x86_64.exe"),
        };
        s
    }
}

/// Fetches the storage-node binary from its fixed base URL rather
/// than from tagged releases.
pub struct WalrusInstaller {
    pub arch: WalrusArch,
    pub install_dir: String,
}

impl WalrusInstaller {
    /// An installer for the given platform flavor and target
    /// directory.
    pub fn new(arch: WalrusArch, install_dir: &String) -> (r: WalrusInstaller)
        ensures
            r.arch == arch,
            r.install_dir@ == install_dir@,
    {
        WalrusInstaller { arch, install_dir: install_dir.clone() }
    }

    /// The fixed URL the binary for this flavor is served from.
    pub fn get_download_url(&self) -> (r: String)
        ensures
            r@ == "https://storage.googleapis.com/mysten-walrus-binaries/walrus-testnet-latest-"@
                + spec_walrus_filename(self.arch),
    {
        let mut s = String::from_str(
            "https://storage.googleapis.com/mysten-walrus-binaries/walrus-testnet-latest-",
        );
        let f = self.arch.to_filename();
        s.append(f.as_str());
        s
    }
}

/// The platform flavor for the running OS and architecture, when the
/// storage-node binary is published for it.
pub fn detect_arch(platform: &str, arch: &str) -> (r: Option<WalrusArch>)
    ensures
        r == (if platform@ == "linux"@ && arch@ == "x86_64"@ {
            Some(WalrusArch::UbuntuX86_64)
        } else if platform@ == "macos"@ && arch@ == "aarch64"@ {
            Some(WalrusArch::MacosArm64)
        } else if platform@ == "macos"@ && arch@ == "x86_64"@ {
            Some(WalrusArch::MacosX86_64)
        } else if platform@ == "windows"@ && arch@ == "x86_64"@ {
            Some(WalrusArch::WindowsX86_64)
        } else {
            None::<WalrusArch>
        }),
{
    if str_eq(platform, "linux") && str_eq(arch, "x86_64") {
        Some(WalrusArch::UbuntuX86_64)
    } else if str_eq(platform, "macos") {
        if str_eq(arch, "aarch64") {
            Some(WalrusArch::MacosArm64)
        } else if str_eq(arch, "x86_64") {
            Some(WalrusArch::MacosX86_64)
        } else {
            None
        }
    } else if str_eq(platform, "windows") && str_eq(arch, "x86_64") {
        Some(WalrusArch::WindowsX86_64)
    } else {
        None
    }
}

} // verus!
