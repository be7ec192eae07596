//! Installation: the closed set of strategies a request resolves to,
//! the idempotent recording of installed binaries, and the naming of
//! installed files in the version store.

use vstd::prelude::*;

use crate::commands::{BinaryName, spec_binary_str, spec_repo_url};
use crate::errors::{ErrorView, SuiupError};
use crate::paths::spec_join_path;
use crate::strutil::str_eq;
use crate::types::{BinaryVersion, BinaryVersionView, InstalledBinaries, Repo, spec_add_record};

verus! {

/// The names of the binaries this tool can install.
pub fn available_components() -> (r: Vec<String>)
    ensures
        r.deep_view() =~= seq!["sui"@, "mvr"@, "walrus"@, "site-builder"@],
{
    let mut v: Vec<String> = Vec::new();
    v.push(String::from_str("sui"));
    v.push(String::from_str("mvr"));
    v.push(String::from_str("walrus"));
    v.push(String::from_str("site-builder"));
    proof {
        assert(v.deep_view() =~= seq!["sui"@, "mvr"@, "walrus"@, "site-builder"@]);
    }
    v
}

/// The closed set of ways a binary gets installed, resolved once from
/// the parsed spec and then dispatched on exhaustively.
#[derive(Debug, Clone)]
pub enum InstallStrategy {
    /// Build from a source branch with the external toolchain.
    Nightly { branch: String, debug: bool },
    /// Fetch the standalone single-file binary.
    Standalone { version: Option<String> },
    /// Fetch a prebuilt release archive from the channel's catalog.
    ReleaseArchive { repo: Repo, network: String, version: Option<String>, debug: bool },
}

/// The ghost shape of a strategy.
pub ghost enum StrategyView {
    Nightly { branch: Seq<char>, debug: bool },
    Standalone { version: Option<Seq<char>> },
    ReleaseArchive { repo: Repo, network: Seq<char>, version: Option<Seq<char>>, debug: bool },
}

impl View for InstallStrategy {
    type V = StrategyView;

    open spec fn view(&self) -> StrategyView {
        match self {
            InstallStrategy::Nightly { branch, debug } => StrategyView::Nightly {
                branch: branch@,
                debug: *debug,
            },
            InstallStrategy::Standalone { version } => StrategyView::Standalone {
                version: match version {
                    Some(v) => Some(v@),
                    None => None,
                },
            },
            InstallStrategy::ReleaseArchive { repo, network, version, debug } =>
                StrategyView::ReleaseArchive {
                repo: *repo,
                network: network@,
                version: match version {
                    Some(v) => Some(v@),
                    None => None,
                },
                debug: *debug,
            },
        }
    }
}

/// The strategy a request resolves to: a branch build when a branch is
/// named; the standalone fetch for the standalone binary; otherwise
/// the release-archive path against the binary's own catalog. A debug
/// build without a branch exists only for the main binary, and a
/// branch build never carries a pinned release version.
pub open spec fn spec_select_strategy(
    name: BinaryName,
    network: Seq<char>,
    version: Option<Seq<char>>,
    nightly: Option<Seq<char>>,
    debug: bool,
) -> Result<StrategyView, ErrorView> {
    if name != BinaryName::Sui && debug && nightly is None {
        Err(ErrorView::DebugFlagOnlySui)
    } else if nightly is Some && version is Some {
        Err(ErrorView::NightlyAndVersion)
    } else {
        match nightly {
            Some(branch) => Ok(StrategyView::Nightly { branch, debug }),
            None => match name {
                BinaryName::Mvr => Ok(StrategyView::Standalone { version }),
                BinaryName::Walrus => Ok(
                    StrategyView::ReleaseArchive { repo: Repo::Walrus, network, version, debug },
                ),
                BinaryName::Sui => Ok(
                    StrategyView::ReleaseArchive { repo: Repo::Sui, network, version, debug },
                ),
            },
        }
    }
}

/// Resolves the strategy for an install request.
pub fn select_strategy(
    name: &BinaryName,
    network: &str,
    version: Option<String>,
    nightly: Option<String>,
    debug: bool,
) -> (r: Result<InstallStrategy, SuiupError>)
    ensures
        ({
            let vv = match version {
                Some(ref v) => Some(v@),
                None => None,
            };
            let nv = match nightly {
                Some(ref b) => Some(b@),
                None => None,
            };
            match r {
                Ok(s) => spec_select_strategy(*name, network@, vv, nv, debug) == Ok::<
                    _,
                    ErrorView,
                >(s@),
                Err(e) => spec_select_strategy(*name, network@, vv, nv, debug) == Err::<
                    StrategyView,
                    _,
                >(e@),
            }
        }),
{
    if *name != BinaryName::Sui && debug && nightly.is_none() {
        return Err(SuiupError::DebugFlagOnlySui);
    }
    if nightly.is_some() && version.is_some() {
        return Err(SuiupError::NightlyAndVersion);
    }
    match nightly {
        Some(branch) => Ok(InstallStrategy::Nightly { branch, debug }),
        None => match name {
            BinaryName::Mvr => Ok(InstallStrategy::Standalone { version }),
            BinaryName::Walrus => Ok(
                InstallStrategy::ReleaseArchive {
                    repo: Repo::Walrus,
                    network: String::from_str(network),
                    version,
                    debug,
                },
            ),
            BinaryName::Sui => Ok(
                InstallStrategy::ReleaseArchive {
                    repo: Repo::Sui,
                    network: String::from_str(network),
                    version,
                    debug,
                },
            ),
        },
    }
}

/// The file name an installed binary carries in the version store:
/// the name, `-debug` for a debug build, and the version, with no
/// trailing separator when the version is empty.
pub open spec fn spec_versioned_name(name: Seq<char>, version: Seq<char>, debug: bool) -> Seq<
    char,
> {
    let base = if debug {
        name + "-debug"@
    } else {
        name
    };
    if version.len() == 0 {
        base
    } else {
        base + "-"@ + version
    }
}

/// The file name an installed binary carries in the version store.
pub fn versioned_name(name: &str, version: &str, debug: bool) -> (r: String)
    ensures
        r@ == spec_versioned_name(name@, version@, debug),
{
    let mut s = String::from_str(name);
    if debug {
        s.append("-debug");
    }
    if version.unicode_len() > 0 {
        s.append("-");
        s.append(version);
    }
    proof {
        assert(s@ =~= spec_versioned_name(name@, version@, debug));
    }
    s
}

/// Where an installed binary lives in the version store: under the
/// channel or branch directory, with the extra `bin` level that the
/// external build tool adds for branch builds.
pub open spec fn spec_store_path(
    binaries_dir: Seq<char>,
    network: Seq<char>,
    nightly: bool,
    filename: Seq<char>,
) -> Seq<char> {
    if nightly {
        spec_join_path(spec_join_path(spec_join_path(binaries_dir, network), "bin"@), filename)
    } else {
        spec_join_path(spec_join_path(binaries_dir, network), filename)
    }
}

/// Where an installed binary lives in the version store.
pub fn store_path(binaries_dir: &str, network: &str, nightly: bool, filename: &str) -> (r: String)
    ensures
        r@ == spec_store_path(binaries_dir@, network@, nightly, filename@),
{
    let net_dir = crate::paths::join_path(binaries_dir, network);
    if nightly {
        let bin_dir = crate::paths::join_path(net_dir.as_str(), "bin");
        crate::paths::join_path(bin_dir.as_str(), filename)
    } else {
        crate::paths::join_path(net_dir.as_str(), filename)
    }
}

/// Checks if the named binary is present among the files of the
/// channel's store directory, under its versioned file name.
pub fn check_if_binaries_exist(binary: &str, network: &str, version: &str, present: &Vec<String>)
    -> (r: bool)
    ensures
        r == (exists|i: int|
            0 <= i < present@.len() && present@[i]@ == spec_versioned_name(
                binary@,
                version@,
                false,
            )),
{
    let want = versioned_name(binary, version, false);
    let mut i: usize = 0;
    while i < present.len()
        invariant
            i <= present@.len(),
            want@ == spec_versioned_name(binary@, version@, false),
            forall|j: int| 0 <= j < i ==> present@[j]@ != want@,
        decreases present@.len() - i,
    {
        if str_eq(present[i].as_str(), want.as_str()) {
            return true;
        }
        i = i + 1;
    }
    false
}

/// Whether an archive entry is the wanted binary: its final path
/// component, handed in as a plain value, equals the binary's name.
pub fn archive_entry_matches(entry_file_name: &str, binary: &str) -> (r: bool)
    ensures
        r == (entry_file_name@ == binary@),
{
    str_eq(entry_file_name, binary)
}

/// A record of the ledger matches the request in every identifying
/// field: name, channel, version and build flavor.
pub open spec fn record_matches(
    b: BinaryVersionView,
    name: Seq<char>,
    network: Seq<char>,
    version: Seq<char>,
    debug: bool,
) -> bool {
    b.binary_name == name && b.network_release == network && b.version == version && b.debug
        == debug
}

/// Whether the ledger already records this exact combination: the
/// orchestrator's idempotency check, a read-only lookup that precedes
/// any fetch or build.
pub fn is_installed(
    installed: &InstalledBinaries,
    name: &str,
    network: &str,
    version: &str,
    debug: bool,
) -> (r: bool)
    ensures
        r == (exists|i: int|
            0 <= i < installed@.len() && record_matches(
                #[trigger] installed@[i],
                name@,
                network@,
                version@,
                debug,
            )),
{
    let records = installed.binaries();
    let mut i: usize = 0;
    while i < records.len()
        invariant
            i <= records@.len(),
            records@.len() == installed@.len(),
            forall|j: int| 0 <= j < records@.len() ==> records@[j]@ == installed@[j],
            forall|j: int|
                0 <= j < i ==> !record_matches(
                    #[trigger] installed@[j],
                    name@,
                    network@,
                    version@,
                    debug,
                ),
        decreases records@.len() - i,
    {
        let b = &records[i];
        if str_eq(b.binary_name.as_str(), name) && str_eq(b.network_release.as_str(), network)
            && str_eq(b.version.as_str(), version) && b.debug == debug {
            proof {
                assert(record_matches(installed@[i as int], name@, network@, version@, debug));
            }
            return true;
        }
        i = i + 1;
    }
    false
}

/// Records an installed binary in the ledger; recording the same
/// combination again leaves the ledger unchanged.
pub fn install_binary(
    installed: &mut InstalledBinaries,
    name: &str,
    network: &str,
    version: &str,
    debug: bool,
    binary_path: &str,
)
    ensures
        final(installed)@ == spec_add_record(
            old(installed)@,
            BinaryVersionView {
                binary_name: name@,
                network_release: network@,
                version: version@,
                debug,
                path: Some(binary_path@),
            },
        ),
{
    let record = BinaryVersion {
        binary_name: String::from_str(name),
        network_release: String::from_str(network),
        version: String::from_str(version),
        debug,
        path: Some(String::from_str(binary_path)),
    };
    installed.add_binary(record);
}

/// The arguments handed to the external toolchain to build a binary
/// from a branch into the given root, in their exact order.
pub open spec fn spec_nightly_args(name: BinaryName, branch: Seq<char>, root: Seq<char>) -> Seq<
    Seq<char>,
> {
    let head = seq![
        "install"@,
        "--locked"@,
        "--force"@,
        "--git"@,
        spec_repo_url(name),
        "--branch"@,
        branch,
    ];
    let target: Seq<Seq<char>> = if name == BinaryName::Walrus {
        seq!["walrus-service"@, "--bin"@, "walrus"@]
    } else {
        seq![spec_binary_str(name)]
    };
    head + target + seq!["--root"@, root]
}

/// The arguments handed to the external toolchain for a branch build.
pub fn nightly_build_args(name: &BinaryName, branch: &str, root: &str) -> (r: Vec<String>)
    ensures
        r.deep_view() == spec_nightly_args(*name, branch@, root@),
{
    let mut args: Vec<String> = Vec::new();
    args.push(String::from_str("install"));
    args.push(String::from_str("--locked"));
    args.push(String::from_str("--force"));
    args.push(String::from_str("--git"));
    args.push(String::from_str(name.repo_url()));
    args.push(String::from_str("--branch"));
    args.push(String::from_str(branch));
    if *name == BinaryName::Walrus {
        args.push(String::from_str("walrus-service"));
        args.push(String::from_str("--bin"));
        args.push(String::from_str("walrus"));
    } else {
        args.push(String::from_str(name.to_str()));
    }
    args.push(String::from_str("--root"));
    args.push(String::from_str(root));
    proof {
        assert(args.deep_view() =~= spec_nightly_args(*name, branch@, root@));
    }
    args
}

/// The name a branch-built binary is renamed to, so it sits alongside
/// release-installed binaries under the uniform naming convention.
pub fn nightly_dst_name(name: &str, debug: bool) -> (r: String)
    ensures
        r@ == spec_versioned_name(name@, "nightly"@, debug),
{
    proof {
        reveal_strlit("nightly");
    }
    versioned_name(name, "nightly", debug)
}

} // verus!
