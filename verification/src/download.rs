//! Fetching artifacts: choosing the asset for the running platform,
//! deciding when an already-downloaded file can be trusted, verifying
//! checksums, and the suggestions offered when a release is missing.

use vstd::prelude::*;

use crate::errors::{ErrorView, SuiupError};
use crate::release::{catalog_mentions, catalog_mentions_token, find_networks_with_version,
    spec_networks_with_version};
use crate::json::releases_view;
use crate::strutil::{contains_str, spec_contains, str_eq};
use crate::types::{Asset, AssetView, Release, ReleaseView, Repo, spec_repo_binary_name};

verus! {

/// The channels mentioned anywhere in the catalog, by plain name, in
/// the fixed channel order.
pub open spec fn spec_available_networks(rs: Seq<ReleaseView>) -> Seq<Seq<char>> {
    let a: Seq<Seq<char>> = if catalog_mentions(rs, "testnet"@) {
        seq!["testnet"@]
    } else {
        Seq::empty()
    };
    let b: Seq<Seq<char>> = if catalog_mentions(rs, "devnet"@) {
        seq!["devnet"@]
    } else {
        Seq::empty()
    };
    let c: Seq<Seq<char>> = if catalog_mentions(rs, "mainnet"@) {
        seq!["mainnet"@]
    } else {
        Seq::empty()
    };
    a + b + c
}

/// The channels mentioned anywhere in the catalog.
pub fn available_networks(releases: &Vec<Release>) -> (r: Vec<String>)
    ensures
        r.deep_view() == spec_available_networks(releases_view(releases@)),
{
    let mut out: Vec<String> = Vec::new();
    if catalog_mentions_token(releases, "testnet") {
        out.push(String::from_str("testnet"));
    }
    if catalog_mentions_token(releases, "devnet") {
        out.push(String::from_str("devnet"));
    }
    if catalog_mentions_token(releases, "mainnet") {
        out.push(String::from_str("mainnet"));
    }
    proof {
        assert(out.deep_view() =~= spec_available_networks(releases_view(releases@)));
    }
    out
}

/// The error reported when no release fits a request: standalone
/// binaries get a standalone hint; a pinned version lists the channels
/// that do carry it; an unpinned request lists the channels that have
/// releases at all.
pub open spec fn spec_suggestions_error(
    repo: Repo,
    rs: Seq<ReleaseView>,
    version: Option<Seq<char>>,
    net: Seq<char>,
) -> ErrorView {
    if repo == Repo::Mvr {
        match version {
            Some(v) => ErrorView::MvrNotFoundWithVersion(v),
            None => ErrorView::MvrNotFound,
        }
    } else {
        match version {
            Some(v) => {
                let nets = spec_networks_with_version(rs, v);
                if nets.len() > 0 {
                    ErrorView::ReleaseNotFoundWithAlternatives {
                        binary: spec_repo_binary_name(repo),
                        network: net,
                        version: v,
                        networks: nets,
                    }
                } else {
                    ErrorView::ReleaseNotFound { network: net, version: v }
                }
            },
            None => {
                let nets = spec_available_networks(rs);
                if nets.len() > 0 {
                    ErrorView::NoReleasesForNetwork {
                        binary: spec_repo_binary_name(repo),
                        network: net,
                        networks: nets,
                    }
                } else {
                    ErrorView::NoReleases
                }
            },
        }
    }
}

/// Generate helpful error message with network suggestions.
/// Note: this is only applicable for the channel-released binaries;
/// the standalone binary is not tied to a channel.
pub fn generate_network_suggestions_error(
    repo: &Repo,
    releases: &Vec<Release>,
    version: Option<&String>,
    requested_network: &str,
) -> (r: SuiupError)
    ensures
        r@ == spec_suggestions_error(
            *repo,
            releases_view(releases@),
            match version {
                Some(v) => Some(v@),
                None => None,
            },
            requested_network@,
        ),
{
    if *repo == Repo::Mvr {
        match version {
            Some(v) => SuiupError::MvrNotFoundWithVersion(v.clone()),
            None => SuiupError::MvrNotFound,
        }
    } else {
        match version {
            Some(v) => {
                let networks = find_networks_with_version(releases, v.as_str());
                if networks.len() > 0 {
                    SuiupError::ReleaseNotFoundWithAlternatives {
                        binary: String::from_str(repo.binary_name()),
                        network: String::from_str(requested_network),
                        version: v.clone(),
                        networks,
                    }
                } else {
                    SuiupError::ReleaseNotFound {
                        network: String::from_str(requested_network),
                        version: v.clone(),
                    }
                }
            },
            None => {
                let networks = available_networks(releases);
                if networks.len() > 0 {
                    SuiupError::NoReleasesForNetwork {
                        binary: String::from_str(repo.binary_name()),
                        network: String::from_str(requested_network),
                        networks,
                    }
                } else {
                    SuiupError::NoReleases
                }
            },
        }
    }
}

/// The platform tokens asset names are matched on, given the running
/// platform and architecture. The main platforms map to the tokens
/// their release assets carry; anything else is unsupported.
pub open spec fn spec_os_arch(platform: Seq<char>, arch: Seq<char>) -> Result<
    (Seq<char>, Seq<char>),
    ErrorView,
> {
    let os: Seq<char> = if platform == "linux"@ {
        "ubuntu"@
    } else if platform == "windows"@ {
        "windows"@
    } else if platform == "macos"@ {
        "macos"@
    } else {
        Seq::empty()
    };
    if os.len() == 0 {
        Err(ErrorView::UnsupportedOs)
    } else if arch == "x86_64"@ {
        Ok((os, "x86_64"@))
    } else if arch == "aarch64"@ {
        if os == "macos"@ {
            Ok((os, "arm64"@))
        } else {
            Ok((os, "aarch64"@))
        }
    } else {
        Err(ErrorView::UnsupportedArch)
    }
}

/// Detects the OS and architecture tokens used in asset names, from
/// the running platform and architecture names.
pub fn detect_os_arch(platform: &str, arch: &str) -> (r: Result<(String, String), SuiupError>)
    ensures
        match r {
            Ok((os, a)) => spec_os_arch(platform@, arch@) == Ok::<_, ErrorView>((os@, a@)),
            Err(e) => spec_os_arch(platform@, arch@) == Err::<(Seq<char>, Seq<char>), _>(e@),
        },
{
    let os: &str = if str_eq(platform, "linux") {
        "ubuntu"
    } else if str_eq(platform, "windows") {
        "windows"
    } else if str_eq(platform, "macos") {
        "macos"
    } else {
        proof {
            reveal_strlit("ubuntu");
            reveal_strlit("windows");
            reveal_strlit("macos");
            reveal_strlit("");
        }
        return Err(SuiupError::UnsupportedOs);
    };
    proof {
        reveal_strlit("ubuntu");
        reveal_strlit("windows");
        reveal_strlit("macos");
    }
    if str_eq(arch, "x86_64") {
        Ok((String::from_str(os), String::from_str("x86_64")))
    } else if str_eq(arch, "aarch64") {
        if str_eq(os, "macos") {
            Ok((String::from_str(os), String::from_str("arm64")))
        } else {
            Ok((String::from_str(os), String::from_str("aarch64")))
        }
    } else {
        Err(SuiupError::UnsupportedArch)
    }
}

/// The asset's name carries both platform tokens.
pub open spec fn asset_matches(a: AssetView, os: Seq<char>, arch: Seq<char>) -> bool {
    spec_contains(a.name, arch) && spec_contains(a.name, os)
}

/// Selects the one asset of a release that fits the platform: exactly
/// one asset must carry both the OS and the architecture token; both
/// absence and ambiguity are a not-found error naming the two tokens.
pub fn select_asset(release: &Release, os: &str, arch: &str) -> (r: Result<Asset, SuiupError>)
    ensures
        match r {
            Ok(a) => exists|i: int|
                0 <= i < release@.assets.len() && a@ == #[trigger] release@.assets[i]
                    && asset_matches(release@.assets[i], os@, arch@) && forall|j: int|
                    0 <= j < release@.assets.len() && j != i ==> !asset_matches(
                        release@.assets[j],
                        os@,
                        arch@,
                    ),
            Err(e) => e@ == (ErrorView::AssetNotFound { os: os@, arch: arch@ }) && !(exists|i: int|
                0 <= i < release@.assets.len() && asset_matches(
                    #[trigger] release@.assets[i],
                    os@,
                    arch@,
                ) && forall|j: int|
                    0 <= j < release@.assets.len() && j != i ==> !asset_matches(
                        release@.assets[j],
                        os@,
                        arch@,
                    )),
        },
{
    let n = release.assets.len();
    let mut found: Option<usize> = None;
    let mut i: usize = 0;
    while i < n
        invariant
            i <= n,
            n == release.assets@.len(),
            release@.assets.len() == n,
            forall|k: int| 0 <= k < n ==> release@.assets[k] == release.assets@[k]@,
            match found {
                Some(f) => f < i && asset_matches(release@.assets[f as int], os@, arch@) && forall|
                    j: int,
                |
                    0 <= j < i && j != f ==> !asset_matches(release@.assets[j], os@, arch@),
                None => forall|j: int| 0 <= j < i ==> !asset_matches(release@.assets[j], os@, arch@),
            },
        decreases n - i,
    {
        let matches_here = contains_str(release.assets[i].name.as_str(), arch) && contains_str(
            release.assets[i].name.as_str(),
            os,
        );
        if matches_here {
            match found {
                Some(f0) => {
                    proof {
                        assert(asset_matches(release@.assets[i as int], os@, arch@));
                        assert(asset_matches(release@.assets[f0 as int], os@, arch@));
                        assert forall|x: int|
                            0 <= x < release@.assets.len() && asset_matches(
                                #[trigger] release@.assets[x],
                                os@,
                                arch@,
                            ) implies !(forall|j: int|
                            0 <= j < release@.assets.len() && j != x ==> !asset_matches(
                                release@.assets[j],
                                os@,
                                arch@,
                            )) by {
                            if x == f0 {
                                assert(0 <= i < release@.assets.len() && i as int != x
                                    && asset_matches(release@.assets[i as int], os@, arch@));
                            } else {
                                assert(0 <= f0 < release@.assets.len() && f0 as int != x
                                    && asset_matches(release@.assets[f0 as int], os@, arch@));
                            }
                        }
                    }
                    return Err(SuiupError::AssetNotFound {
                        os: String::from_str(os),
                        arch: String::from_str(arch),
                    });
                },
                None => {
                    found = Some(i);
                },
            }
        }
        i = i + 1;
    }
    match found {
        Some(f) => {
            let a = release.assets[f].duplicate();
            Ok(a)
        },
        None => Err(
            SuiupError::AssetNotFound { os: String::from_str(os), arch: String::from_str(arch) },
        ),
    }
}

/// The hex rendering of the MD5 digest of the data; it depends on the
/// bytes alone.
pub uninterp spec fn md5_hex_of(data: Seq<u8>) -> Seq<char>;

/// Relies on md5::compute: the digest of the bytes, 16 bytes rendered
/// as 32 lower-case hex characters.
#[verifier::external_body]
fn md5_hex(data: &[u8]) -> (r: String)
    ensures
        r@ == md5_hex_of(data@),
        r@.len() == 32,
{
    let digest = md5::compute(data);
    format!("{:x}", digest)
}

/// An ASCII whitespace character, as found around a checksum in its
/// companion file.
pub open spec fn is_ws(c: char) -> bool {
    c == ' ' || c == '\t' || c == '\n' || c == '\r'
}

/// The string with ASCII whitespace removed from its start.
pub open spec fn spec_trim_start(s: Seq<char>) -> Seq<char>
    decreases s.len(),
{
    if s.len() > 0 && is_ws(s[0]) {
        spec_trim_start(s.skip(1))
    } else {
        s
    }
}

/// The string with ASCII whitespace removed from its end.
pub open spec fn spec_trim_end(s: Seq<char>) -> Seq<char>
    decreases s.len(),
{
    if s.len() > 0 && is_ws(s.last()) {
        spec_trim_end(s.drop_last())
    } else {
        s
    }
}

/// The string with ASCII whitespace removed from both ends.
pub open spec fn spec_trim(s: Seq<char>) -> Seq<char> {
    spec_trim_end(spec_trim_start(s))
}

/// Removes ASCII whitespace from both ends.
pub fn trim_ws(s: &str) -> (r: String)
    ensures
        r@ == spec_trim(s@),
{
    let n = s.unicode_len();
    let mut start: usize = 0;
    proof {
        assert(s@.skip(0) =~= s@);
    }
    loop
        invariant
            start <= n,
            n == s@.len(),
            spec_trim_start(s@) == spec_trim_start(s@.skip(start as int)),
        ensures
            start <= n,
            n == s@.len(),
            spec_trim_start(s@) == s@.skip(start as int),
        decreases n - start,
    {
        if start >= n {
            proof {
                assert(s@.skip(start as int).len() == 0);
            }
            break ;
        }
        let c = s.get_char(start);
        if !(c == ' ' || c == '\t' || c == '\n' || c == '\r') {
            proof {
                assert(s@.skip(start as int)[0] == s@[start as int]);
            }
            break ;
        }
        proof {
            assert(s@.skip(start as int)[0] == s@[start as int]);
            assert(s@.skip(start as int).skip(1) =~= s@.skip(start + 1));
        }
        start = start + 1;
    }
    let mut end: usize = n;
    proof {
        assert(s@.subrange(start as int, n as int) =~= s@.subrange(start as int, end as int));
    }
    loop
        invariant
            start <= end <= n,
            n == s@.len(),
            spec_trim_end(s@.subrange(start as int, n as int)) == spec_trim_end(
                s@.subrange(start as int, end as int),
            ),
        ensures
            start <= end <= n,
            n == s@.len(),
            spec_trim_end(s@.subrange(start as int, n as int)) == s@.subrange(
                start as int,
                end as int,
            ),
        decreases end,
    {
        if end <= start {
            proof {
                assert(s@.subrange(start as int, end as int).len() == 0);
            }
            break ;
        }
        let c = s.get_char(end - 1);
        if !(c == ' ' || c == '\t' || c == '\n' || c == '\r') {
            proof {
                assert(s@.subrange(start as int, end as int).last() == s@[end - 1]);
            }
            break ;
        }
        proof {
            let cur = s@.subrange(start as int, end as int);
            assert(cur.last() == s@[end - 1]);
            assert(cur.drop_last() =~= s@.subrange(start as int, end - 1));
        }
        end = end - 1;
    }
    proof {
        assert(s@.skip(start as int) =~= s@.subrange(start as int, n as int));
    }
    let r = s.substring_char(start, end).to_owned();
    proof {
        assert(r@ =~= s@.subrange(start as int, end as int));
    }
    r
}

/// Whether the data matches the published checksum, compared after
/// trimming the whitespace a checksum file carries around the digest.
pub fn verify_checksum(data: &[u8], expected: &str) -> (r: bool)
    ensures
        r == (md5_hex_of(data@) == spec_trim(expected@)),
{
    let local = md5_hex(data);
    let want = trim_ws(expected);
    str_eq(local.as_str(), want.as_str())
}

/// What to do with a file already present at the download target.
#[derive(Debug, Clone, Copy, PartialEq, Eq, Structural)]
pub enum DownloadAction {
    /// The existing file is complete and trusted: skip the download.
    UseCached,
    /// The existing file cannot be trusted: remove it and download.
    Redownload,
}

/// Decides whether an existing download can be trusted: only a file of
/// exactly the expected size, whose checksum — when a companion
/// checksum is present — matched. A partial or mismatching file is
/// downloaded again, never trusted.
pub fn download_cache_decision(
    file_len: Option<u64>,
    total_size: u64,
    checksum_ok: Option<bool>,
) -> (r: DownloadAction)
    ensures
        r == DownloadAction::UseCached <==> (file_len == Some(total_size) && checksum_ok != Some(
            false,
        )),
{
    match file_len {
        Some(len) if len == total_size => {
            match checksum_ok {
                Some(false) => DownloadAction::Redownload,
                _ => DownloadAction::UseCached,
            }
        },
        _ => DownloadAction::Redownload,
    }
}

/// Accepts a completed download: when a companion checksum is present
/// the data must match it, else the checksum failure is fatal and the
/// file is not treated as valid. Yields the artifact name on success.
pub fn check_downloaded(name: &str, data: &[u8], expected_md5: Option<&String>) -> (r: Result<
    String,
    SuiupError,
>)
    ensures
        match r {
            Ok(n) => n@ == name@ && (match expected_md5 {
                Some(e) => md5_hex_of(data@) == spec_trim(e@),
                None => true,
            }),
            Err(err) => expected_md5 is Some && md5_hex_of(data@) != spec_trim(
                expected_md5->Some_0@,
            ) && err@ == (ErrorView::ChecksumMismatch {
                name: name@,
                expected: spec_trim(expected_md5->Some_0@),
                actual: md5_hex_of(data@),
            }),
        },
{
    match expected_md5 {
        Some(e) => {
            let local = md5_hex(data);
            let want = trim_ws(e.as_str());
            if str_eq(local.as_str(), want.as_str()) {
                Ok(String::from_str(name))
            } else {
                Err(SuiupError::ChecksumMismatch {
                    name: String::from_str(name),
                    expected: want,
                    actual: local,
                })
            }
        },
        None => Ok(String::from_str(name)),
    }
}

} // verus!
