//! The user-facing command surface: the managed binary names, the command
//! data, and the parser that turns a user-supplied component spec such as
//! `sui@testnet-1.39.3` into structured metadata.

use vstd::prelude::*;

use crate::errors::{ErrorKind, ErrorView, SuiupError, spec_kind};
use crate::strutil::{
    contains_str, eq_lower, find_char, find_str, is_first_match, lemma_find_str_unique, lower_eq,
    spec_contains, spec_find_str, spec_starts_with, starts_with, str_eq,
};

verus! {

/// A binary this tool manages.
#[derive(Clone, Copy, Debug, PartialEq, Hash, Eq, Structural)]
pub enum BinaryName {
    Sui,
    Walrus,
    Mvr,
}

/// The top-level commands.
#[derive(Debug, Clone)]
pub enum Commands {
    Default(DefaultCommands),
    Install { component: String, nightly: Option<String>, debug: bool, yes: bool },
    Remove { binary: BinaryName },
    List,
    SelfOp(SelfCommands),
    Show,
    Update { name: String, yes: bool },
    Which,
}

/// The component-level commands the installer dispatches on.
#[derive(Debug, Clone)]
pub enum ComponentCommands {
    List,
    Add { component: String, debug: bool, nightly: Option<String>, yes: bool },
    Remove { binary: BinaryName },
    Cleanup { all: bool, days: u32, dry_run: bool },
}

/// Getting and setting the promoted default binary.
#[derive(Debug, Clone)]
pub enum DefaultCommands {
    Get,
    SetDefault { name: String, debug: bool, nightly: Option<String> },
}

/// Operations on this tool itself.
#[derive(Debug, Clone)]
pub enum SelfCommands {
    Update,
    Uninstall,
}

/// A parsed component spec: which binary, which release channel, and an
/// optional explicit version.
#[derive(Debug, Clone, Hash, PartialEq, Eq)]
pub struct CommandMetadata {
    pub name: BinaryName,
    pub network: String,
    pub version: Option<String>,
}

/// The ghost shape of parsed component metadata.
pub ghost struct MetadataView {
    pub name: BinaryName,
    pub network: Seq<char>,
    pub version: Option<Seq<char>>,
}

impl View for CommandMetadata {
    type V = MetadataView;

    open spec fn view(&self) -> MetadataView {
        MetadataView {
            name: self.name,
            network: self.network@,
            version: match self.version {
                Some(ref v) => Some(v@),
                None => None,
            },
        }
    }
}

/// The binary a name denotes, compared without regard to ASCII case.
pub open spec fn spec_binary_name(s: Seq<char>) -> Option<BinaryName> {
    if lower_eq(s, "sui"@) {
        Some(BinaryName::Sui)
    } else if lower_eq(s, "walrus"@) {
        Some(BinaryName::Walrus)
    } else if lower_eq(s, "mvr"@) {
        Some(BinaryName::Mvr)
    } else {
        None
    }
}

/// The source repository a binary is released from.
pub open spec fn spec_repo_url(b: BinaryName) -> Seq<char> {
    match b {
        BinaryName::Mvr => "https://github.com/MystenLabs/mvr"@,
        BinaryName::Walrus => "https://github.com/MystenLabs/walrus"@,
        BinaryName::Sui => "https://github.com/MystenLabs/sui"@,
    }
}

/// The lower-case name of a binary.
pub open spec fn spec_binary_str(b: BinaryName) -> Seq<char> {
    match b {
        BinaryName::Sui => "sui"@,
        BinaryName::Walrus => "walrus"@,
        BinaryName::Mvr => "mvr"@,
    }
}

impl BinaryName {
    /// The URL of the repository this binary is built from.
    pub fn repo_url(&self) -> (r: &'static str)
        ensures
            r@ == spec_repo_url(*self),
    {
        match self {
            BinaryName::Mvr => "https://github.com/MystenLabs/mvr",
            BinaryName::Walrus => "https://github.com/MystenLabs/walrus",
            BinaryName::Sui => "https://github.com/MystenLabs/sui",
        }
    }

    /// The name of the binary, as spelled on disk and in specs.
    pub fn to_str(&self) -> (r: &'static str)
        ensures
            r@ == spec_binary_str(*self),
    {
        match self {
            BinaryName::Sui => "sui",
            BinaryName::Walrus => "walrus",
            BinaryName::Mvr => "mvr",
        }
    }

    /// The binary a name denotes, matched without regard to ASCII case;
    /// unknown names are rejected.
    pub fn from_str(s: &str) -> (r: Option<BinaryName>)
        ensures
            r == spec_binary_name(s@),
    {
        if eq_lower(s, "sui") {
            Some(BinaryName::Sui)
        } else if eq_lower(s, "walrus") {
            Some(BinaryName::Walrus)
        } else if eq_lower(s, "mvr") {
            Some(BinaryName::Mvr)
        } else {
            None
        }
    }
}

/// What a version spec token denotes: the release channel, and the
/// explicit version if one was given. A token that starts with a fixed
/// channel name and a hyphen is split at that first hyphen; a token that
/// is exactly a channel name pins the channel alone; anything else is a
/// bare version on the primary channel. No token at all means the
/// primary channel at its latest version.
pub open spec fn spec_parse_version_spec(spec: Option<Seq<char>>) -> (Seq<char>, Option<
    Seq<char>,
>) {
    match spec {
        None => ("testnet"@, None),
        Some(sp) => if spec_starts_with(sp, "testnet-"@) || spec_starts_with(sp, "devnet-"@)
            || spec_starts_with(sp, "mainnet-"@) {
            let i = spec_find_str(sp, "-"@)->Some_0;
            (sp.take(i), Some(sp.skip(i + 1)))
        } else if sp == "testnet"@ || sp == "devnet"@ || sp == "mainnet"@ {
            (sp, None)
        } else {
            ("testnet"@, Some(sp))
        },
    }
}

/// Splits a version spec token into its channel and optional version.
/// Never fails: an unrecognized token is read as a bare version.
pub fn parse_version_spec(spec: Option<String>) -> (r: Result<
    (String, Option<String>),
    SuiupError,
>)
    ensures
        r is Ok,
        ({
            let sv = match spec {
                Some(ref sp) => Some(sp@),
                None => None,
            };
            let expect = spec_parse_version_spec(sv);
            r->Ok_0.0@ == expect.0 && (match r->Ok_0.1 {
                Some(ref v) => Some(v@),
                None => None,
            }) == expect.1
        }),
{
    match spec {
        None => {
            let net = String::from_str("testnet");
            Ok((net, None))
        },
        Some(sp) => {
            let s = sp.as_str();
            if starts_with(s, "testnet-") || starts_with(s, "devnet-") || starts_with(
                s,
                "mainnet-",
            ) {
                proof {
                    reveal_strlit("testnet-");
                    reveal_strlit("devnet-");
                    reveal_strlit("mainnet-");
                    reveal_strlit("-");
                    if spec_starts_with(s@, "testnet-"@) {
                        assert(s@.subrange(0, 8)[7] == '-');
                        assert(s@[7] == '-');
                    } else if spec_starts_with(s@, "devnet-"@) {
                        assert(s@.subrange(0, 7)[6] == '-');
                        assert(s@[6] == '-');
                    } else {
                        assert(s@.subrange(0, 8)[7] == '-');
                        assert(s@[7] == '-');
                    }
                }
                match find_char(s, '-') {
                    Some(i) => {
                        proof {
                            assert(s@.subrange(i as int, i + 1) =~= "-"@);
                            assert(is_first_match(s@, "-"@, i as int)) by {
                                assert forall|j: int| 0 <= j < i implies !crate::strutil::spec_match_at(
                                    s@,
                                    "-"@,
                                    j,
                                ) by {
                                    if crate::strutil::spec_match_at(s@, "-"@, j) {
                                        assert(s@.subrange(j, j + 1)[0] == s@[j]);
                                    }
                                }
                            }
                            lemma_find_str_unique(s@, "-"@, i as int);
                        }
                        let len = s.unicode_len();
                        let net = s.substring_char(0, i).to_owned();
                        let ver = s.substring_char(i + 1, len).to_owned();
                        proof {
                            assert(net@ =~= s@.take(i as int));
                            assert(ver@ =~= s@.skip(i + 1));
                        }
                        Ok((net, Some(ver)))
                    },
                    None => {
                        proof {
                            assert(false);
                        }
                        Ok((sp, None))
                    },
                }
            } else if str_eq(s, "testnet") || str_eq(s, "devnet") || str_eq(s, "mainnet") {
                Ok((sp, None))
            } else {
                let net = String::from_str("testnet");
                Ok((net, Some(sp)))
            }
        },
    }
}

/// The separator a component spec is split on: `@` when present, else
/// `==`, else `=`, else a space.
pub open spec fn spec_sep(s: Seq<char>) -> Seq<char> {
    if spec_contains(s, "@"@) {
        "@"@
    } else if spec_contains(s, "=="@) {
        "=="@
    } else if spec_contains(s, "="@) {
        "="@
    } else {
        " "@
    }
}

/// What a component spec denotes. The spec is split on its separator:
/// no separator means the bare binary name at the default channel; one
/// separator means a binary name and a version spec token; more than one
/// is malformed. An unknown binary name is rejected with a hint.
pub open spec fn spec_parse_component(s: Seq<char>) -> Result<MetadataView, ErrorView> {
    let sep = spec_sep(s);
    match spec_find_str(s, sep) {
        None => match spec_binary_name(s) {
            None => Err(ErrorView::InvalidBinaryName(s)),
            Some(b) => Ok(
                MetadataView { name: b, network: "testnet"@, version: None },
            ),
        },
        Some(i) => {
            let p0 = s.take(i);
            let rest = s.skip(i + sep.len() as int);
            if spec_contains(rest, sep) {
                Err(ErrorView::InvalidComponentFormat)
            } else {
                match spec_binary_name(p0) {
                    None => Err(ErrorView::InvalidBinaryName(p0)),
                    Some(b) => {
                        let nv = spec_parse_version_spec(Some(rest));
                        Ok(MetadataView { name: b, network: nv.0, version: nv.1 })
                    },
                }
            }
        },
    }
}

/// Parses a component spec such as `sui`, `sui@testnet`, or
/// `sui@testnet-1.39.3` into command metadata.
pub fn parse_component_with_version(s: &str) -> (r: Result<CommandMetadata, SuiupError>)
    ensures
        match r {
            Ok(m) => spec_parse_component(s@) == Ok::<MetadataView, ErrorView>(m@),
            Err(e) => spec_parse_component(s@) == Err::<MetadataView, ErrorView>(e@),
        },
{
    let sep: &str = if contains_str(s, "@") {
        "@"
    } else if contains_str(s, "==") {
        "=="
    } else if contains_str(s, "=") {
        "="
    } else {
        " "
    };
    proof {
        assert(sep@ == spec_sep(s@));
    }
    match find_str(s, sep) {
        None => {
            proof {
                assert(!spec_contains(s@, sep@));
                assert(spec_find_str(s@, sep@) is None);
            }
            match BinaryName::from_str(s) {
                None => Err(SuiupError::InvalidBinaryName(s.to_owned())),
                Some(b) => {
                    let net = String::from_str("testnet");
                    Ok(CommandMetadata { name: b, network: net, version: None })
                },
            }
        },
        Some(i) => {
            proof {
                lemma_find_str_unique(s@, sep@, i as int);
            }
            let len = s.unicode_len();
            let sep_len = sep.unicode_len();
            let p0 = s.substring_char(0, i);
            let rest = s.substring_char(i + sep_len, len);
            proof {
                assert(p0@ =~= s@.take(i as int));
                assert(rest@ =~= s@.skip(i + sep@.len() as int));
            }
            if contains_str(rest, sep) {
                Err(SuiupError::InvalidComponentFormat)
            } else {
                match BinaryName::from_str(p0) {
                    None => Err(SuiupError::InvalidBinaryName(p0.to_owned())),
                    Some(b) => {
                        match parse_version_spec(Some(rest.to_owned())) {
                            Ok((net, ver)) => Ok(
                                CommandMetadata { name: b, network: net, version: ver },
                            ),
                            Err(e) => Err(e),
                        }
                    },
                }
            }
        },
    }
}

/// Parsing is total: every component spec either parses, or is refused
/// with an error in the user-input class. With the parse functions'
/// contracts, which pin the result to a function of the spec string,
/// this makes parsing deterministic over repeated calls.
pub proof fn lemma_parse_component_total(s: Seq<char>)
    ensures
        spec_parse_component(s) is Err ==> spec_kind(spec_parse_component(s)->Err_0)
            == ErrorKind::UserInput,
{
}

/// Orchestrates component operations on behalf of the commands,
/// carrying the optional upstream access token.
pub struct ComponentManager {
    pub github_token: Option<String>,
}

impl ComponentManager {
    /// A manager that will use the given upstream access token.
    pub fn new(github_token: Option<String>) -> (r: ComponentManager)
        ensures
            r.github_token == github_token,
    {
        ComponentManager { github_token }
    }
}

} // verus!
