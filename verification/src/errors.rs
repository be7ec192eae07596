//! The library's error taxonomy: user-input errors, network errors,
//! not-found conditions with actionable suggestions, integrity failures,
//! a missing build toolchain, and file-system failures passed through
//! verbatim. Every error renders to a single human-readable message.

use vstd::prelude::*;

use crate::strutil::{spec_join, join};

verus! {

/// The broad classes of failure the tool distinguishes.
#[derive(Clone, Copy, Debug, PartialEq, Eq, Structural)]
pub enum ErrorKind {
    /// An unparseable spec, an unknown binary, or conflicting flags.
    UserInput,
    /// A fetch failure or a non-success HTTP status.
    Network,
    /// No matching release, asset, or installed binary.
    NotFound,
    /// A checksum mismatch or a corrupt JSON store.
    Integrity,
    /// The compiler toolchain needed for a branch build is absent.
    ToolchainMissing,
    /// An underlying I/O failure, propagated verbatim.
    FileSystem,
}

/// An error of the version manager.
#[derive(Debug, Clone)]
pub enum SuiupError {
    /// The spec names a binary this tool does not manage.
    InvalidBinaryName(String),
    /// The spec does not have the `binary` or `binary version` shape.
    InvalidComponentFormat,
    /// A switch spec without exactly one `@`.
    SwitchSpecFormat,
    /// A switch spec with an empty binary or release part.
    SwitchSpecEmpty,
    /// The promotion request is missing its argument.
    SetDefaultArgs,
    /// The update request is missing its argument.
    EmptyUpdateArgument,
    /// Updates never carry an explicit version.
    UpdateWithVersion,
    /// The name is not an installable component.
    InvalidComponentName(String),
    /// The debug build exists only for the main binary.
    DebugFlagOnlySui,
    /// A branch build and a pinned release version exclude each other.
    NightlyAndVersion,
    /// A version string that is not `major.minor.patch`.
    InvalidVersionFormat,
    /// A channel name that is not one of the fixed set.
    InvalidNetwork,
    /// A release file name with no embedded version.
    NoVersionInRelease,
    /// The running platform is not supported.
    UnsupportedOs,
    /// The running architecture is not supported.
    UnsupportedArch,
    /// A download ended with a non-success HTTP status.
    DownloadFailed(String),
    /// The upstream reported no change, but no cached catalog exists.
    NotModifiedWithoutCache,
    /// The requested version exists, but only under other channels.
    ReleaseNotFoundWithAlternatives { binary: String, network: String, version: String, networks: Vec<String> },
    /// The requested release does not exist under the channel.
    ReleaseNotFound { network: String, version: String },
    /// No release mentions the channel, but others are available.
    NoReleasesForNetwork { binary: String, network: String, networks: Vec<String> },
    /// The catalog is empty.
    NoReleases,
    /// The requested standalone version does not exist.
    MvrNotFoundWithVersion(String),
    /// No standalone release exists at all.
    MvrNotFound,
    /// No asset in the chosen release fits the platform.
    AssetNotFound { os: String, arch: String },
    /// The upstream has no release for the channel.
    NoReleaseForNetwork(String),
    /// The standalone catalog is empty.
    NoStandaloneReleases(String),
    /// The standalone catalog has no release with this tag.
    VersionNotFound(String),
    /// No standalone asset fits the platform.
    NoCompatibleBinary,
    /// No standalone asset fits the named platform.
    NoCompatibleBinaryFor { os: String, arch: String },
    /// The installed-binaries store does not decode.
    CorruptInstalledStore,
    /// The default-binaries store does not decode.
    CorruptDefaultStore,
    /// The cached release catalog does not decode.
    CorruptReleaseCache,
    /// A downloaded file does not match its published checksum.
    ChecksumMismatch { name: String, expected: String, actual: String },
    /// Nothing is installed under the channel.
    NoBinariesForNetwork(String),
    /// The binary has no installed record at all.
    BinaryNotInstalled(String),
    /// No installed version of the binary under the channel.
    NoVersionForBinary { name: String, network: String },
    /// The exact (binary, version, channel) record is absent.
    RecordNotFound { binary_version: String, network: String },
    /// No installed binary matches a switch spec.
    NoInstalledForSpec { binary: String, network: String },
    /// The binary is not installed, so it cannot be updated.
    UpdateBinaryNotInstalled(String),
    /// The build toolchain is missing or unusable.
    ToolchainMissing(String),
    /// An I/O failure, with the underlying message.
    FileSystem(String),
}

/// The ghost shape of an error: the same variants over sequences.
pub ghost enum ErrorView {
    InvalidBinaryName(Seq<char>),
    InvalidComponentFormat,
    SwitchSpecFormat,
    SwitchSpecEmpty,
    SetDefaultArgs,
    EmptyUpdateArgument,
    UpdateWithVersion,
    InvalidComponentName(Seq<char>),
    DebugFlagOnlySui,
    NightlyAndVersion,
    InvalidVersionFormat,
    InvalidNetwork,
    NoVersionInRelease,
    UnsupportedOs,
    UnsupportedArch,
    DownloadFailed(Seq<char>),
    NotModifiedWithoutCache,
    ReleaseNotFoundWithAlternatives { binary: Seq<char>, network: Seq<char>, version: Seq<char>, networks: Seq<Seq<char>> },
    ReleaseNotFound { network: Seq<char>, version: Seq<char> },
    NoReleasesForNetwork { binary: Seq<char>, network: Seq<char>, networks: Seq<Seq<char>> },
    NoReleases,
    MvrNotFoundWithVersion(Seq<char>),
    MvrNotFound,
    AssetNotFound { os: Seq<char>, arch: Seq<char> },
    NoReleaseForNetwork(Seq<char>),
    NoStandaloneReleases(Seq<char>),
    VersionNotFound(Seq<char>),
    NoCompatibleBinary,
    NoCompatibleBinaryFor { os: Seq<char>, arch: Seq<char> },
    CorruptInstalledStore,
    CorruptDefaultStore,
    CorruptReleaseCache,
    ChecksumMismatch { name: Seq<char>, expected: Seq<char>, actual: Seq<char> },
    NoBinariesForNetwork(Seq<char>),
    BinaryNotInstalled(Seq<char>),
    NoVersionForBinary { name: Seq<char>, network: Seq<char> },
    RecordNotFound { binary_version: Seq<char>, network: Seq<char> },
    NoInstalledForSpec { binary: Seq<char>, network: Seq<char> },
    UpdateBinaryNotInstalled(Seq<char>),
    ToolchainMissing(Seq<char>),
    FileSystem(Seq<char>),
}

impl View for SuiupError {
    type V = ErrorView;

    open spec fn view(&self) -> ErrorView {
        match self {
            SuiupError::InvalidBinaryName(s) => ErrorView::InvalidBinaryName(s@),
            SuiupError::InvalidComponentFormat => ErrorView::InvalidComponentFormat,
            SuiupError::SwitchSpecFormat => ErrorView::SwitchSpecFormat,
            SuiupError::SwitchSpecEmpty => ErrorView::SwitchSpecEmpty,
            SuiupError::SetDefaultArgs => ErrorView::SetDefaultArgs,
            SuiupError::EmptyUpdateArgument => ErrorView::EmptyUpdateArgument,
            SuiupError::UpdateWithVersion => ErrorView::UpdateWithVersion,
            SuiupError::InvalidComponentName(s) => ErrorView::InvalidComponentName(s@),
            SuiupError::DebugFlagOnlySui => ErrorView::DebugFlagOnlySui,
            SuiupError::NightlyAndVersion => ErrorView::NightlyAndVersion,
            SuiupError::InvalidVersionFormat => ErrorView::InvalidVersionFormat,
            SuiupError::InvalidNetwork => ErrorView::InvalidNetwork,
            SuiupError::NoVersionInRelease => ErrorView::NoVersionInRelease,
            SuiupError::UnsupportedOs => ErrorView::UnsupportedOs,
            SuiupError::UnsupportedArch => ErrorView::UnsupportedArch,
            SuiupError::DownloadFailed(s) => ErrorView::DownloadFailed(s@),
            SuiupError::NotModifiedWithoutCache => ErrorView::NotModifiedWithoutCache,
            SuiupError::ReleaseNotFoundWithAlternatives { binary, network, version, networks } =>
                ErrorView::ReleaseNotFoundWithAlternatives {
                    binary: binary@,
                    network: network@,
                    version: version@,
                    networks: networks.deep_view(),
                },
            SuiupError::ReleaseNotFound { network, version } => ErrorView::ReleaseNotFound {
                network: network@,
                version: version@,
            },
            SuiupError::NoReleasesForNetwork { binary, network, networks } =>
                ErrorView::NoReleasesForNetwork {
                    binary: binary@,
                    network: network@,
                    networks: networks.deep_view(),
                },
            SuiupError::NoReleases => ErrorView::NoReleases,
            SuiupError::MvrNotFoundWithVersion(s) => ErrorView::MvrNotFoundWithVersion(s@),
            SuiupError::MvrNotFound => ErrorView::MvrNotFound,
            SuiupError::AssetNotFound { os, arch } => ErrorView::AssetNotFound {
                os: os@,
                arch: arch@,
            },
            SuiupError::NoReleaseForNetwork(s) => ErrorView::NoReleaseForNetwork(s@),
            SuiupError::NoStandaloneReleases(s) => ErrorView::NoStandaloneReleases(s@),
            SuiupError::VersionNotFound(s) => ErrorView::VersionNotFound(s@),
            SuiupError::NoCompatibleBinary => ErrorView::NoCompatibleBinary,
            SuiupError::NoCompatibleBinaryFor { os, arch } => ErrorView::NoCompatibleBinaryFor {
                os: os@,
                arch: arch@,
            },
            SuiupError::CorruptInstalledStore => ErrorView::CorruptInstalledStore,
            SuiupError::CorruptDefaultStore => ErrorView::CorruptDefaultStore,
            SuiupError::CorruptReleaseCache => ErrorView::CorruptReleaseCache,
            SuiupError::ChecksumMismatch { name, expected, actual } => ErrorView::ChecksumMismatch {
                name: name@,
                expected: expected@,
                actual: actual@,
            },
            SuiupError::NoBinariesForNetwork(s) => ErrorView::NoBinariesForNetwork(s@),
            SuiupError::BinaryNotInstalled(s) => ErrorView::BinaryNotInstalled(s@),
            SuiupError::NoVersionForBinary { name, network } => ErrorView::NoVersionForBinary {
                name: name@,
                network: network@,
            },
            SuiupError::RecordNotFound { binary_version, network } => ErrorView::RecordNotFound {
                binary_version: binary_version@,
                network: network@,
            },
            SuiupError::NoInstalledForSpec { binary, network } => ErrorView::NoInstalledForSpec {
                binary: binary@,
                network: network@,
            },
            SuiupError::UpdateBinaryNotInstalled(s) => ErrorView::UpdateBinaryNotInstalled(s@),
            SuiupError::ToolchainMissing(s) => ErrorView::ToolchainMissing(s@),
            SuiupError::FileSystem(s) => ErrorView::FileSystem(s@),
        }
    }
}

/// The class an error belongs to.
pub open spec fn spec_kind(e: ErrorView) -> ErrorKind {
    match e {
        ErrorView::InvalidBinaryName(_) => ErrorKind::UserInput,
        ErrorView::InvalidComponentFormat => ErrorKind::UserInput,
        ErrorView::SwitchSpecFormat => ErrorKind::UserInput,
        ErrorView::SwitchSpecEmpty => ErrorKind::UserInput,
        ErrorView::SetDefaultArgs => ErrorKind::UserInput,
        ErrorView::EmptyUpdateArgument => ErrorKind::UserInput,
        ErrorView::UpdateWithVersion => ErrorKind::UserInput,
        ErrorView::InvalidComponentName(_) => ErrorKind::UserInput,
        ErrorView::DebugFlagOnlySui => ErrorKind::UserInput,
        ErrorView::NightlyAndVersion => ErrorKind::UserInput,
        ErrorView::InvalidVersionFormat => ErrorKind::UserInput,
        ErrorView::InvalidNetwork => ErrorKind::UserInput,
        ErrorView::NoVersionInRelease => ErrorKind::NotFound,
        ErrorView::UnsupportedOs => ErrorKind::UserInput,
        ErrorView::UnsupportedArch => ErrorKind::UserInput,
        ErrorView::DownloadFailed(_) => ErrorKind::Network,
        ErrorView::NotModifiedWithoutCache => ErrorKind::Network,
        ErrorView::ReleaseNotFoundWithAlternatives { .. } => ErrorKind::NotFound,
        ErrorView::ReleaseNotFound { .. } => ErrorKind::NotFound,
        ErrorView::NoReleasesForNetwork { .. } => ErrorKind::NotFound,
        ErrorView::NoReleases => ErrorKind::NotFound,
        ErrorView::MvrNotFoundWithVersion(_) => ErrorKind::NotFound,
        ErrorView::MvrNotFound => ErrorKind::NotFound,
        ErrorView::AssetNotFound { .. } => ErrorKind::NotFound,
        ErrorView::NoReleaseForNetwork(_) => ErrorKind::NotFound,
        ErrorView::NoStandaloneReleases(_) => ErrorKind::NotFound,
        ErrorView::VersionNotFound(_) => ErrorKind::NotFound,
        ErrorView::NoCompatibleBinary => ErrorKind::NotFound,
        ErrorView::NoCompatibleBinaryFor { .. } => ErrorKind::NotFound,
        ErrorView::CorruptInstalledStore => ErrorKind::Integrity,
        ErrorView::CorruptDefaultStore => ErrorKind::Integrity,
        ErrorView::CorruptReleaseCache => ErrorKind::Integrity,
        ErrorView::ChecksumMismatch { .. } => ErrorKind::Integrity,
        ErrorView::NoBinariesForNetwork(_) => ErrorKind::NotFound,
        ErrorView::BinaryNotInstalled(_) => ErrorKind::NotFound,
        ErrorView::NoVersionForBinary { .. } => ErrorKind::NotFound,
        ErrorView::RecordNotFound { .. } => ErrorKind::NotFound,
        ErrorView::NoInstalledForSpec { .. } => ErrorKind::NotFound,
        ErrorView::UpdateBinaryNotInstalled(_) => ErrorKind::NotFound,
        ErrorView::ToolchainMissing(_) => ErrorKind::ToolchainMissing,
        ErrorView::FileSystem(_) => ErrorKind::FileSystem,
    }
}

/// One install suggestion: the command that would fetch the binary from
/// the given channel, with the version appended when one was asked for.
pub open spec fn spec_suggestion(binary: Seq<char>, net: Seq<char>, version: Option<Seq<char>>) -> Seq<char> {
    match version {
        Some(v) => "suiup install "@ + binary + "@"@ + net + "-"@ + v,
        None => "suiup install "@ + binary + "@"@ + net,
    }
}

/// The suggestions for a list of channels.
pub open spec fn spec_suggestions(binary: Seq<char>, nets: Seq<Seq<char>>, version: Option<Seq<char>>) -> Seq<Seq<char>> {
    nets.map_values(|n: Seq<char>| spec_suggestion(binary, n, version))
}

/// The message an error renders to.
pub open spec fn spec_message(e: ErrorView) -> Seq<char> {
    match e {
        ErrorView::InvalidBinaryName(name) => "Invalid binary name: "@ + name
            + ". Use `suiup list` to find available binaries to install."@,
        ErrorView::InvalidComponentFormat => "Invalid format. Use 'binary' or 'binary version'"@,
        ErrorView::SwitchSpecFormat =>
            "Invalid format. Use 'binary@network_release' format (e.g., 'sui@testnet', 'mvr@main')"@,
        ErrorView::SwitchSpecEmpty => "Binary name and network/release cannot be empty"@,
        ErrorView::SetDefaultArgs =>
            "Invalid number of arguments. Version is required: 'sui@testnet-1.39.3', 'sui@testnet' -- this will use an installed binary that has the highest testnet version. \n For `mvr` only pass the version: `mvr@0.0.5`"@,
        ErrorView::EmptyUpdateArgument => "Invalid number of arguments for `update` command"@,
        ErrorView::UpdateWithVersion =>
            "Update should be done without a version. Use `suiup install` to specify a version"@,
        ErrorView::InvalidComponentName(name) => "Invalid component name: "@ + name,
        ErrorView::DebugFlagOnlySui => "Debug flag is only available for the `sui` binary"@,
        ErrorView::NightlyAndVersion =>
            "Cannot install from nightly and a release at the same time. Remove the version or the nightly flag"@,
        ErrorView::InvalidVersionFormat => "Invalid version format"@,
        ErrorView::InvalidNetwork => "Invalid network"@,
        ErrorView::NoVersionInRelease => "Could not extract version from release"@,
        ErrorView::UnsupportedOs => "Unsupported OS. Supported only: Linux, Windows, MacOS"@,
        ErrorView::UnsupportedArch =>
            "Unsupported architecture. Supported only: x86_64, aarch64"@,
        ErrorView::DownloadFailed(status) => "Failed to download: "@ + status,
        ErrorView::NotModifiedWithoutCache =>
            "Upstream reported no change, but no cached release list exists"@,
        ErrorView::ReleaseNotFoundWithAlternatives { binary, network, version, networks } =>
            "Release "@ + network + "-"@ + version + " not found. However, version "@ + version
            + " is available for other networks:\n\nTry one of these commands:\n  "@
            + spec_join(spec_suggestions(binary, networks, Some(version)), "\n  "@),
        ErrorView::ReleaseNotFound { network, version } => "Release "@ + network + "-"@ + version
            + " not found"@,
        ErrorView::NoReleasesForNetwork { binary, network, networks } => "No releases found for "@
            + network + " network. Available networks:\n\nTry one of these commands:\n  "@
            + spec_join(spec_suggestions(binary, networks, None), "\n  "@),
        ErrorView::NoReleases => "Could not find any releases"@,
        ErrorView::MvrNotFoundWithVersion(v) => "MVR version "@ + v
            + " not found. MVR is a standalone binary - try: suiup install mvr "@ + v,
        ErrorView::MvrNotFound =>
            "MVR release not found. MVR is a standalone binary - try: suiup install mvr"@,
        ErrorView::AssetNotFound { os, arch } => "Asset not found for "@ + os + "-"@ + arch,
        ErrorView::NoReleaseForNetwork(net) => "No release found for "@ + net,
        ErrorView::NoStandaloneReleases(binary) => "No "@ + binary + " releases found"@,
        ErrorView::VersionNotFound(v) => "Version "@ + v + " not found"@,
        ErrorView::NoCompatibleBinary => "No compatible binary found for your system"@,
        ErrorView::NoCompatibleBinaryFor { os, arch } =>
            "No compatible binary found for your system: "@ + os + "-"@ + arch,
        ErrorView::CorruptInstalledStore => "Cannot deserialize from installed binaries file"@,
        ErrorView::CorruptDefaultStore =>
            "Cannot decode default binary file to JSON. Is the file corrupted?"@,
        ErrorView::CorruptReleaseCache => "Cannot deserialize the releases cached file"@,
        ErrorView::ChecksumMismatch { name, expected, actual } => "MD5 check failed for "@ + name
            + ": expected "@ + expected + ", got "@ + actual,
        ErrorView::NoBinariesForNetwork(net) => "No binaries installed for "@ + net,
        ErrorView::BinaryNotInstalled(name) => "Binary "@ + name
            + " not found in installed binaries. Use `suiup show` to see installed binaries."@,
        ErrorView::NoVersionForBinary { name, network } => "No version found for "@ + name
            + " in "@ + network,
        ErrorView::RecordNotFound { binary_version, network } => "Binary "@ + binary_version
            + " from "@ + network
            + " release not found. Use `suiup show` to see installed binaries."@,
        ErrorView::NoInstalledForSpec { binary, network } => "No installed binary found for "@
            + binary + "@"@ + network + ". Use 'suiup show' to see available binaries."@,
        ErrorView::UpdateBinaryNotInstalled(name) => "Binary "@ + name
            + " not found in installed binaries. Use `suiup show` to see installed binaries and `suiup install` to install the binary."@,
        ErrorView::ToolchainMissing(m) => m,
        ErrorView::FileSystem(m) => m,
    }
}

impl SuiupError {
    /// The class this error belongs to.
    pub fn kind(&self) -> (r: ErrorKind)
        ensures
            r == spec_kind(self@),
    {
        match self {
            SuiupError::InvalidBinaryName(_) => ErrorKind::UserInput,
            SuiupError::InvalidComponentFormat => ErrorKind::UserInput,
            SuiupError::SwitchSpecFormat => ErrorKind::UserInput,
            SuiupError::SwitchSpecEmpty => ErrorKind::UserInput,
            SuiupError::SetDefaultArgs => ErrorKind::UserInput,
            SuiupError::EmptyUpdateArgument => ErrorKind::UserInput,
            SuiupError::UpdateWithVersion => ErrorKind::UserInput,
            SuiupError::InvalidComponentName(_) => ErrorKind::UserInput,
            SuiupError::DebugFlagOnlySui => ErrorKind::UserInput,
            SuiupError::NightlyAndVersion => ErrorKind::UserInput,
            SuiupError::InvalidVersionFormat => ErrorKind::UserInput,
            SuiupError::InvalidNetwork => ErrorKind::UserInput,
            SuiupError::NoVersionInRelease => ErrorKind::NotFound,
            SuiupError::UnsupportedOs => ErrorKind::UserInput,
            SuiupError::UnsupportedArch => ErrorKind::UserInput,
            SuiupError::DownloadFailed(_) => ErrorKind::Network,
            SuiupError::NotModifiedWithoutCache => ErrorKind::Network,
            SuiupError::ReleaseNotFoundWithAlternatives { .. } => ErrorKind::NotFound,
            SuiupError::ReleaseNotFound { .. } => ErrorKind::NotFound,
            SuiupError::NoReleasesForNetwork { .. } => ErrorKind::NotFound,
            SuiupError::NoReleases => ErrorKind::NotFound,
            SuiupError::MvrNotFoundWithVersion(_) => ErrorKind::NotFound,
            SuiupError::MvrNotFound => ErrorKind::NotFound,
            SuiupError::AssetNotFound { .. } => ErrorKind::NotFound,
            SuiupError::NoReleaseForNetwork(_) => ErrorKind::NotFound,
            SuiupError::NoStandaloneReleases(_) => ErrorKind::NotFound,
            SuiupError::VersionNotFound(_) => ErrorKind::NotFound,
            SuiupError::NoCompatibleBinary => ErrorKind::NotFound,
            SuiupError::NoCompatibleBinaryFor { .. } => ErrorKind::NotFound,
            SuiupError::CorruptInstalledStore => ErrorKind::Integrity,
            SuiupError::CorruptDefaultStore => ErrorKind::Integrity,
            SuiupError::CorruptReleaseCache => ErrorKind::Integrity,
            SuiupError::ChecksumMismatch { .. } => ErrorKind::Integrity,
            SuiupError::NoBinariesForNetwork(_) => ErrorKind::NotFound,
            SuiupError::BinaryNotInstalled(_) => ErrorKind::NotFound,
            SuiupError::NoVersionForBinary { .. } => ErrorKind::NotFound,
            SuiupError::RecordNotFound { .. } => ErrorKind::NotFound,
            SuiupError::NoInstalledForSpec { .. } => ErrorKind::NotFound,
            SuiupError::UpdateBinaryNotInstalled(_) => ErrorKind::NotFound,
            SuiupError::ToolchainMissing(_) => ErrorKind::ToolchainMissing,
            SuiupError::FileSystem(_) => ErrorKind::FileSystem,
        }
    }

    /// The single human-readable line this error prints as.
    pub fn message(&self) -> (r: String)
        ensures
            r@ == spec_message(self@),
    {
        match self {
            SuiupError::InvalidBinaryName(name) => {
                let mut s = String::new();
                s.append("Invalid binary name: ");
                s.append(name.as_str());
                s.append(". Use `suiup list` to find available binaries to install.");
                proof {
                    assert(s@ =~= spec_message(self@));
                }
                s
            },
            SuiupError::InvalidComponentFormat => {
                let s = String::from_str("Invalid format. Use 'binary' or 'binary version'");
                s
            },
            SuiupError::SwitchSpecFormat => {
                let s = String::from_str(
                    "Invalid format. Use 'binary@network_release' format (e.g., 'sui@testnet', 'mvr@main')",
                );
                s
            },
            SuiupError::SwitchSpecEmpty => {
                let s = String::from_str("Binary name and network/release cannot be empty");
                s
            },
            SuiupError::SetDefaultArgs => {
                let s = String::from_str(
                    "Invalid number of arguments. Version is required: 'sui@testnet-1.39.3', 'sui@testnet' -- this will use an installed binary that has the highest testnet version. \n For `mvr` only pass the version: `mvr@0.0.5`",
                );
                s
            },
            SuiupError::EmptyUpdateArgument => {
                let s = String::from_str("Invalid number of arguments for `update` command");
                s
            },
            SuiupError::UpdateWithVersion => {
                let s = String::from_str(
                    "Update should be done without a version. Use `suiup install` to specify a version",
                );
                s
            },
            SuiupError::InvalidComponentName(name) => {
                let mut s = String::new();
                s.append("Invalid component name: ");
                s.append(name.as_str());
                proof {
                    assert(s@ =~= spec_message(self@));
                }
                s
            },
            SuiupError::DebugFlagOnlySui => {
                let s = String::from_str("Debug flag is only available for the `sui` binary");
                s
            },
            SuiupError::NightlyAndVersion => {
                let s = String::from_str(
                    "Cannot install from nightly and a release at the same time. Remove the version or the nightly flag",
                );
                s
            },
            SuiupError::InvalidVersionFormat => {
                let s = String::from_str("Invalid version format");
                s
            },
            SuiupError::InvalidNetwork => {
                let s = String::from_str("Invalid network");
                s
            },
            SuiupError::NoVersionInRelease => {
                let s = String::from_str("Could not extract version from release");
                s
            },
            SuiupError::UnsupportedOs => {
                let s = String::from_str("Unsupported OS. Supported only: Linux, Windows, MacOS");
                s
            },
            SuiupError::UnsupportedArch => {
                let s = String::from_str(
                    "Unsupported architecture. Supported only: x86_64, aarch64",
                );
                s
            },
            SuiupError::DownloadFailed(status) => {
                let mut s = String::new();
                s.append("Failed to download: ");
                s.append(status.as_str());
                proof {
                    assert(s@ =~= spec_message(self@));
                }
                s
            },
            SuiupError::NotModifiedWithoutCache => {
                let s = String::from_str(
                    "Upstream reported no change, but no cached release list exists",
                );
                s
            },
            SuiupError::ReleaseNotFoundWithAlternatives { binary, network, version, networks } => {
                let suggestions = build_suggestions(binary, networks, Some(version));
                let mut s = String::new();
                s.append("Release ");
                s.append(network.as_str());
                s.append("-");
                s.append(version.as_str());
                s.append(" not found. However, version ");
                s.append(version.as_str());
                s.append(" is available for other networks:\n\nTry one of these commands:\n  ");
                let joined = join(&suggestions, "\n  ");
                s.append(joined.as_str());
                proof {
                    assert(s@ =~= spec_message(self@));
                }
                s
            },
            SuiupError::ReleaseNotFound { network, version } => {
                let mut s = String::new();
                s.append("Release ");
                s.append(network.as_str());
                s.append("-");
                s.append(version.as_str());
                s.append(" not found");
                proof {
                    assert(s@ =~= spec_message(self@));
                }
                s
            },
            SuiupError::NoReleasesForNetwork { binary, network, networks } => {
                let suggestions = build_suggestions(binary, networks, None);
                let mut s = String::new();
                s.append("No releases found for ");
                s.append(network.as_str());
                s.append(" network. Available networks:\n\nTry one of these commands:\n  ");
                let joined = join(&suggestions, "\n  ");
                s.append(joined.as_str());
                proof {
                    assert(s@ =~= spec_message(self@));
                }
                s
            },
            SuiupError::NoReleases => {
                let s = String::from_str("Could not find any releases");
                s
            },
            SuiupError::MvrNotFoundWithVersion(v) => {
                let mut s = String::new();
                s.append("MVR version ");
                s.append(v.as_str());
                s.append(" not found. MVR is a standalone binary - try: suiup install mvr ");
                s.append(v.as_str());
                proof {
                    assert(s@ =~= spec_message(self@));
                }
                s
            },
            SuiupError::MvrNotFound => {
                let s = String::from_str(
                    "MVR release not found. MVR is a standalone binary - try: suiup install mvr",
                );
                s
            },
            SuiupError::AssetNotFound { os, arch } => {
                let mut s = String::new();
                s.append("Asset not found for ");
                s.append(os.as_str());
                s.append("-");
                s.append(arch.as_str());
                proof {
                    assert(s@ =~= spec_message(self@));
                }
                s
            },
            SuiupError::NoReleaseForNetwork(net) => {
                let mut s = String::new();
                s.append("No release found for ");
                s.append(net.as_str());
                proof {
                    assert(s@ =~= spec_message(self@));
                }
                s
            },
            SuiupError::NoStandaloneReleases(binary) => {
                let mut s = String::new();
                s.append("No ");
                s.append(binary.as_str());
                s.append(" releases found");
                proof {
                    assert(s@ =~= spec_message(self@));
                }
                s
            },
            SuiupError::VersionNotFound(v) => {
                let mut s = String::new();
                s.append("Version ");
                s.append(v.as_str());
                s.append(" not found");
                proof {
                    assert(s@ =~= spec_message(self@));
                }
                s
            },
            SuiupError::NoCompatibleBinary => {
                let s = String::from_str("No compatible binary found for your system");
                s
            },
            SuiupError::NoCompatibleBinaryFor { os, arch } => {
                let mut s = String::new();
                s.append("No compatible binary found for your system: ");
                s.append(os.as_str());
                s.append("-");
                s.append(arch.as_str());
                proof {
                    assert(s@ =~= spec_message(self@));
                }
                s
            },
            SuiupError::CorruptInstalledStore => {
                let s = String::from_str("Cannot deserialize from installed binaries file");
                s
            },
            SuiupError::CorruptDefaultStore => {
                let s = String::from_str(
                    "Cannot decode default binary file to JSON. Is the file corrupted?",
                );
                s
            },
            SuiupError::CorruptReleaseCache => {
                let s = String::from_str("Cannot deserialize the releases cached file");
                s
            },
            SuiupError::ChecksumMismatch { name, expected, actual } => {
                let mut s = String::new();
                s.append("MD5 check failed for ");
                s.append(name.as_str());
                s.append(": expected ");
                s.append(expected.as_str());
                s.append(", got ");
                s.append(actual.as_str());
                proof {
                    assert(s@ =~= spec_message(self@));
                }
                s
            },
            SuiupError::NoBinariesForNetwork(net) => {
                let mut s = String::new();
                s.append("No binaries installed for ");
                s.append(net.as_str());
                proof {
                    assert(s@ =~= spec_message(self@));
                }
                s
            },
            SuiupError::BinaryNotInstalled(name) => {
                let mut s = String::new();
                s.append("Binary ");
                s.append(name.as_str());
                s.append(
                    " not found in installed binaries. Use `suiup show` to see installed binaries.",
                );
                proof {
                    assert(s@ =~= spec_message(self@));
                }
                s
            },
            SuiupError::NoVersionForBinary { name, network } => {
                let mut s = String::new();
                s.append("No version found for ");
                s.append(name.as_str());
                s.append(" in ");
                s.append(network.as_str());
                proof {
                    assert(s@ =~= spec_message(self@));
                }
                s
            },
            SuiupError::RecordNotFound { binary_version, network } => {
                let mut s = String::new();
                s.append("Binary ");
                s.append(binary_version.as_str());
                s.append(" from ");
                s.append(network.as_str());
                s.append(" release not found. Use `suiup show` to see installed binaries.");
                proof {
                    assert(s@ =~= spec_message(self@));
                }
                s
            },
            SuiupError::NoInstalledForSpec { binary, network } => {
                let mut s = String::new();
                s.append("No installed binary found for ");
                s.append(binary.as_str());
                s.append("@");
                s.append(network.as_str());
                s.append(". Use 'suiup show' to see available binaries.");
                proof {
                    assert(s@ =~= spec_message(self@));
                }
                s
            },
            SuiupError::UpdateBinaryNotInstalled(name) => {
                let mut s = String::new();
                s.append("Binary ");
                s.append(name.as_str());
                s.append(
                    " not found in installed binaries. Use `suiup show` to see installed binaries and `suiup install` to install the binary.",
                );
                proof {
                    assert(s@ =~= spec_message(self@));
                }
                s
            },
            SuiupError::ToolchainMissing(m) => {
                let s = m.clone();
                s
            },
            SuiupError::FileSystem(m) => {
                let s = m.clone();
                s
            },
        }
    }
}

/// The install suggestions for a list of channels, one per channel.
fn build_suggestions(binary: &String, nets: &Vec<String>, version: Option<&String>) -> (r: Vec<
    String,
>)
    ensures
        r.deep_view() == spec_suggestions(
            binary@,
            nets.deep_view(),
            match version {
                Some(v) => Some(v@),
                None => None,
            },
        ),
{
    let ghost vspec: Option<Seq<char>> = match version {
        Some(v) => Some(v@),
        None => None,
    };
    let mut r: Vec<String> = Vec::new();
    let mut i: usize = 0;
    while i < nets.len()
        invariant
            i <= nets@.len(),
            r@.len() == i,
            vspec == match version {
                Some(v) => Some(v@),
                None => None,
            },
            forall|j: int| 0 <= j < i ==> r@[j]@ == spec_suggestion(binary@, nets@[j]@, vspec),
        decreases nets@.len() - i,
    {
        let mut s = String::new();
        s.append("suiup install ");
        s.append(binary.as_str());
        s.append("@");
        s.append(nets[i].as_str());
        match version {
            Some(v) => {
                s.append("-");
                s.append(v.as_str());
                proof {
                    assert(s@ =~= spec_suggestion(binary@, nets@[i as int]@, vspec));
                }
            },
            None => {
                proof {
                    assert(s@ =~= spec_suggestion(binary@, nets@[i as int]@, vspec));
                }
            },
        }
        r.push(s);
        i = i + 1;
    }
    proof {
        let d = r.deep_view();
        let m = spec_suggestions(binary@, nets.deep_view(), vspec);
        assert forall|j: int| 0 <= j < nets@.len() implies d[j] == m[j] by {
            assert(d[j] == r@[j]@);
            assert(nets.deep_view()[j] == nets@[j]@);
            assert(m[j] == spec_suggestion(binary@, nets@[j]@, vspec));
        }
        assert(d =~= m);
    }
    r
}

} // verus!
