//! The data model: source repositories, release catalog entries, the
//! record of one installed binary, and the two JSON-backed stores — the
//! ledger of installed binaries and the map of promoted defaults.

use vstd::prelude::*;

use crate::errors::SuiupError;
use crate::strutil::{
    lemma_str_lt_connex, lemma_str_lt_irrefl, lemma_str_lt_trans, spec_str_lt, str_eq, str_lt,
};

verus! {

/// A source repository binaries are released from.
#[derive(Debug, Clone, Copy, PartialEq, Eq, Structural)]
pub enum Repo {
    Sui,
    Mvr,
    Walrus,
    WalrusSites,
}

/// The name of the binary a repository releases.
pub open spec fn spec_repo_binary_name(r: Repo) -> Seq<char> {
    match r {
        Repo::Sui => "sui"@,
        Repo::Walrus => "walrus"@,
        Repo::Mvr => "mvr"@,
        Repo::WalrusSites => "site-builder"@,
    }
}

/// The `owner/name` identity of a repository.
pub open spec fn spec_repo_identity(r: Repo) -> Seq<char> {
    match r {
        Repo::Mvr => "MystenLabs/mvr"@,
        Repo::Sui => "MystenLabs/sui"@,
        Repo::Walrus => "MystenLabs/walrus"@,
        Repo::WalrusSites => "MystenLabs/walrus-sites"@,
    }
}

impl Repo {
    /// Returns the binary name for this repository.
    pub fn binary_name(&self) -> (r: &'static str)
        ensures
            r@ == spec_repo_binary_name(*self),
    {
        match self {
            Repo::Sui => "sui",
            Repo::Walrus => "walrus",
            Repo::Mvr => "mvr",
            Repo::WalrusSites => "site-builder",
        }
    }

    /// The `owner/name` identity of the repository, as it appears in
    /// upstream URLs.
    pub fn to_display_string(&self) -> (r: String)
        ensures
            r@ == spec_repo_identity(*self),
    {
        let s = match self {
            Repo::Mvr => String::from_str("MystenLabs/mvr"),
            Repo::Sui => String::from_str("MystenLabs/sui"),
            Repo::Walrus => String::from_str("MystenLabs/walrus"),
            Repo::WalrusSites => String::from_str("MystenLabs/walrus-sites"),
        };
        s
    }
}

/// A release channel.
#[derive(Copy, Hash, Clone, PartialEq, Eq, PartialOrd, Ord, Debug, Structural)]
pub enum Network {
    Testnet,
    Devnet,
    Mainnet,
}

/// The name of a release channel.
pub open spec fn spec_network_str(n: Network) -> Seq<char> {
    match n {
        Network::Testnet => "testnet"@,
        Network::Devnet => "devnet"@,
        Network::Mainnet => "mainnet"@,
    }
}

impl Network {
    /// The channel a name denotes; unknown names are rejected.
    pub fn from_str(s: &str) -> (r: Result<Network, SuiupError>)
        ensures
            match r {
                Ok(n) => s@ == spec_network_str(n),
                Err(_) => s@ != "testnet"@ && s@ != "devnet"@ && s@ != "mainnet"@,
            },
    {
        if str_eq(s, "testnet") {
            Ok(Network::Testnet)
        } else if str_eq(s, "devnet") {
            Ok(Network::Devnet)
        } else if str_eq(s, "mainnet") {
            Ok(Network::Mainnet)
        } else {
            Err(SuiupError::InvalidNetwork)
        }
    }

    /// The name of the channel.
    pub fn to_str(&self) -> (r: &'static str)
        ensures
            r@ == spec_network_str(*self),
    {
        match self {
            Network::Testnet => "testnet",
            Network::Devnet => "devnet",
            Network::Mainnet => "mainnet",
        }
    }
}

/// One downloadable asset of a release.
#[derive(Debug, Clone, PartialEq, Eq)]
pub struct Asset {
    pub browser_download_url: String,
    pub name: String,
}

/// The ghost shape of an asset.
pub ghost struct AssetView {
    pub url: Seq<char>,
    pub name: Seq<char>,
}

impl View for Asset {
    type V = AssetView;

    open spec fn view(&self) -> AssetView {
        AssetView { url: self.browser_download_url@, name: self.name@ }
    }
}

/// One upstream release: its downloadable assets, newest catalog first.
#[derive(Debug, Clone, PartialEq, Eq)]
pub struct Release {
    pub assets: Vec<Asset>,
}

/// The ghost shape of a release.
pub ghost struct ReleaseView {
    pub assets: Seq<AssetView>,
}

impl View for Release {
    type V = ReleaseView;

    open spec fn view(&self) -> ReleaseView {
        ReleaseView { assets: Seq::new(self.assets@.len(), |i: int| self.assets@[i]@) }
    }
}

/// The record of one installed binary.
#[derive(Debug, Clone, PartialEq, Eq)]
pub struct BinaryVersion {
    /// The name of the tool binary.
    pub binary_name: String,
    /// The release channel or branch the binary came from.
    pub network_release: String,
    /// The version of the binary within that channel.
    pub version: String,
    /// Whether this is a debug build.
    pub debug: bool,
    /// Where the binary was installed.
    pub path: Option<String>,
}

/// The ghost shape of an installed-binary record.
pub ghost struct BinaryVersionView {
    pub binary_name: Seq<char>,
    pub network_release: Seq<char>,
    pub version: Seq<char>,
    pub debug: bool,
    pub path: Option<Seq<char>>,
}

impl View for BinaryVersion {
    type V = BinaryVersionView;

    open spec fn view(&self) -> BinaryVersionView {
        BinaryVersionView {
            binary_name: self.binary_name@,
            network_release: self.network_release@,
            version: self.version@,
            debug: self.debug,
            path: match self.path {
                Some(ref p) => Some(p@),
                None => None,
            },
        }
    }
}

impl BinaryVersion {
    /// A copy of the record, field by field.
    pub fn duplicate(&self) -> (r: BinaryVersion)
        ensures
            r@ == self@,
    {
        BinaryVersion {
            binary_name: self.binary_name.clone(),
            network_release: self.network_release.clone(),
            version: self.version.clone(),
            debug: self.debug,
            path: match &self.path {
                Some(p) => Some(p.clone()),
                None => None,
            },
        }
    }
}

/// Field-wise equality of two records.
pub fn record_eq(a: &BinaryVersion, b: &BinaryVersion) -> (r: bool)
    ensures
        r == (a@ == b@),
{
    let paths_eq = match (&a.path, &b.path) {
        (Some(p), Some(q)) => str_eq(p.as_str(), q.as_str()),
        (None, None) => true,
        _ => false,
    };
    let r = paths_eq && str_eq(a.binary_name.as_str(), b.binary_name.as_str()) && str_eq(
        a.network_release.as_str(),
        b.network_release.as_str(),
    ) && str_eq(a.version.as_str(), b.version.as_str()) && a.debug == b.debug;
    proof {
        if r {
            assert(a@ == b@);
        } else {
            assert(a@ != b@);
        }
    }
    r
}

/// A plain list of records, as handed to display code.
#[derive(Debug, Clone)]
pub struct Binaries {
    pub binaries: Vec<BinaryVersion>,
}

/// What adding a record to the ledger yields: the ledger unchanged when
/// an identical record is already present, else the record appended.
pub open spec fn spec_add_record(s: Seq<BinaryVersionView>, b: BinaryVersionView) -> Seq<
    BinaryVersionView,
> {
    if s.contains(b) {
        s
    } else {
        s.push(b)
    }
}

/// Adding a record twice yields what adding it once yields: the ledger
/// never holds two identical records.
pub proof fn lemma_add_record_idempotent(s: Seq<BinaryVersionView>, b: BinaryVersionView)
    ensures
        spec_add_record(spec_add_record(s, b), b) == spec_add_record(s, b),
{
    if !s.contains(b) {
        assert(s.push(b)[s.len() as int] == b);
        assert(s.push(b).contains(b));
    }
}

/// The ledger of every installed binary. The full set persists as one
/// ordered collection in a single JSON document.
#[derive(Debug, Clone)]
pub struct InstalledBinaries {
    binaries: Vec<BinaryVersion>,
}

impl View for InstalledBinaries {
    type V = Seq<BinaryVersionView>;

    closed spec fn view(&self) -> Seq<BinaryVersionView> {
        Seq::new(self.binaries@.len(), |i: int| self.binaries@[i]@)
    }
}

impl InstalledBinaries {
    /// An empty ledger, as first created on disk.
    pub fn new() -> (r: InstalledBinaries)
        ensures
            r@ == Seq::<BinaryVersionView>::empty(),
    {
        let r = InstalledBinaries { binaries: Vec::new() };
        proof {
            assert(r@ =~= Seq::<BinaryVersionView>::empty());
        }
        r
    }

    /// A ledger holding the given records.
    pub fn from_records(records: Vec<BinaryVersion>) -> (r: InstalledBinaries)
        ensures
            r@ == Seq::new(records@.len(), |i: int| records@[i]@),
    {
        InstalledBinaries { binaries: records }
    }

    /// Adds a record, unless an identical one is already present: the
    /// ledger never duplicates a record.
    pub fn add_binary(&mut self, binary: BinaryVersion)
        ensures
            final(self)@ == spec_add_record(old(self)@, binary@),
    {
        let mut i: usize = 0;
        let n = self.binaries.len();
        while i < n
            invariant
                i <= n,
                n == self.binaries@.len(),
                self == old(self),
                forall|j: int| 0 <= j < i ==> self@[j] != binary@,
            decreases n - i,
        {
            if record_eq(&self.binaries[i], &binary) {
                proof {
                    assert(self@[i as int] == self.binaries@[i as int]@);
                    assert(self@[i as int] == binary@);
                    assert(old(self)@.contains(binary@));
                }
                return ;
            }
            i = i + 1;
        }
        proof {
            assert(forall|j: int| 0 <= j < old(self)@.len() ==> old(self)@[j] != binary@);
            assert(!old(self)@.contains(binary@));
        }
        self.binaries.push(binary);
        proof {
            assert(self@ =~= old(self)@.push(binary@));
        }
    }

    /// Removes every record of the named binary.
    pub fn remove_binary(&mut self, binary: &str)
        ensures
            final(self)@ == old(self)@.filter(|b: BinaryVersionView| b.binary_name != binary@),
    {
        let ghost pred = |b: BinaryVersionView| b.binary_name != binary@;
        let mut kept: Vec<BinaryVersion> = Vec::new();
        let mut i: usize = 0;
        let n = self.binaries.len();
        while i < n
            invariant
                i <= n,
                n == self.binaries@.len(),
                self == old(self),
                pred == (|b: BinaryVersionView| b.binary_name != binary@),
                Seq::new(kept@.len(), |k: int| kept@[k]@) =~= self@.take(i as int).filter(pred),
            decreases n - i,
        {
            let keep = !str_eq(self.binaries[i].binary_name.as_str(), binary);
            proof {
                reveal_with_fuel(Seq::filter, 2);
                let prefix = self@.take(i as int);
                let next = self@.take(i + 1);
                assert(next =~= prefix + seq![self@[i as int]]);
                Seq::filter_distributes_over_add(prefix, seq![self@[i as int]], pred);
                let single = seq![self@[i as int]];
                assert(single.drop_last() =~= Seq::<BinaryVersionView>::empty());
                assert(Seq::<BinaryVersionView>::empty().filter(pred) =~= Seq::<
                    BinaryVersionView,
                >::empty());
                assert(single.last() == self@[i as int]);
                if keep {
                    assert(single.filter(pred) =~= single);
                } else {
                    assert(single.filter(pred) =~= Seq::<BinaryVersionView>::empty());
                }
            }
            if keep {
                let b = self.binaries[i].duplicate();
                proof {
                    assert(b@ == self@[i as int]);
                }
                kept.push(b);
            }
            proof {
                assert(Seq::new(kept@.len(), |k: int| kept@[k]@) =~= self@.take(i + 1).filter(
                    pred,
                ));
            }
            i = i + 1;
        }
        proof {
            assert(self@.take(n as int) =~= self@);
        }
        self.binaries = kept;
    }

    /// The recorded binaries, in ledger order.
    pub fn binaries(&self) -> (r: &Vec<BinaryVersion>)
        ensures
            r@.len() == self@.len(),
            forall|i: int| 0 <= i < r@.len() ==> r@[i]@ == self@[i],
    {
        &self.binaries
    }
}

/// One promoted default: a binary name mapped to the channel, version
/// and build flavor that is active for it.
#[derive(Debug, Clone, PartialEq, Eq)]
pub struct DefaultEntry {
    pub binary_name: String,
    pub network: String,
    pub version: String,
    pub debug: bool,
}

/// The ghost shape of a promoted default.
pub ghost struct DefaultEntryView {
    pub binary_name: Seq<char>,
    pub network: Seq<char>,
    pub version: Seq<char>,
    pub debug: bool,
}

impl View for DefaultEntry {
    type V = DefaultEntryView;

    open spec fn view(&self) -> DefaultEntryView {
        DefaultEntryView {
            binary_name: self.binary_name@,
            network: self.network@,
            version: self.version@,
            debug: self.debug,
        }
    }
}

/// The entries are strictly ordered by binary name, so each name maps
/// to at most one entry.
pub open spec fn default_entries_sorted(s: Seq<DefaultEntryView>) -> bool {
    forall|i: int, j: int|
        0 <= i < j < s.len() ==> spec_str_lt(s[i].binary_name, s[j].binary_name)
}

/// The entry at `i` carries the name, and no earlier entry does.
pub open spec fn is_first_entry(s: Seq<DefaultEntryView>, name: Seq<char>, i: int) -> bool {
    0 <= i < s.len() && s[i].binary_name == name && forall|j: int|
        0 <= j < i ==> s[j].binary_name != name
}

/// What the map holds for a name: the channel, version and build
/// flavor of the first entry carrying it.
pub open spec fn spec_default_lookup(s: Seq<DefaultEntryView>, name: Seq<char>) -> Option<
    (Seq<char>, Seq<char>, bool),
> {
    if exists|i: int| 0 <= i < s.len() && s[i].binary_name == name {
        let i = choose|i: int| is_first_entry(s, name, i);
        Some((s[i].network, s[i].version, s[i].debug))
    } else {
        None
    }
}

/// A first entry for a name is the one `spec_default_lookup` reads.
pub proof fn lemma_default_lookup_at(s: Seq<DefaultEntryView>, name: Seq<char>, i: int)
    requires
        is_first_entry(s, name, i),
    ensures
        spec_default_lookup(s, name) == Some((s[i].network, s[i].version, s[i].debug)),
{
    assert(exists|k: int| 0 <= k < s.len() && s[k].binary_name == name);
    let k = choose|k: int| is_first_entry(s, name, k);
    assert(is_first_entry(s, name, k));
    if k < i {
        assert(s[k].binary_name != name);
        assert(false);
    }
    if i < k {
        assert(s[i].binary_name != name);
        assert(false);
    }
}

/// In a strictly sorted map, any entry carrying a name is the first.
pub proof fn lemma_sorted_first_entry(s: Seq<DefaultEntryView>, nm: Seq<char>, i: int)
    requires
        default_entries_sorted(s),
        0 <= i < s.len(),
        s[i].binary_name == nm,
    ensures
        is_first_entry(s, nm, i),
{
    assert forall|j: int| 0 <= j < i implies s[j].binary_name != nm by {
        assert(spec_str_lt(s[j].binary_name, s[i].binary_name));
        if s[j].binary_name == nm {
            lemma_str_lt_irrefl(nm);
        }
    }
}

/// The map of promoted defaults: exactly one entry per binary name,
/// kept sorted by name, persisted as its own JSON document.
#[derive(Debug, Clone)]
pub struct DefaultBinaries {
    entries: Vec<DefaultEntry>,
}

impl View for DefaultBinaries {
    type V = Seq<DefaultEntryView>;

    closed spec fn view(&self) -> Seq<DefaultEntryView> {
        Seq::new(self.entries@.len(), |i: int| self.entries@[i]@)
    }
}

impl DefaultBinaries {
    /// An empty map, as first created on disk.
    pub fn new() -> (r: DefaultBinaries)
        ensures
            r@ == Seq::<DefaultEntryView>::empty(),
            default_entries_sorted(r@),
    {
        let r = DefaultBinaries { entries: Vec::new() };
        proof {
            assert(r@ =~= Seq::<DefaultEntryView>::empty());
        }
        r
    }

    /// A map holding the given entries, which must be strictly sorted
    /// by binary name.
    pub fn from_entries(entries: Vec<DefaultEntry>) -> (r: DefaultBinaries)
        requires
            default_entries_sorted(Seq::new(entries@.len(), |i: int| entries@[i]@)),
        ensures
            r@ == Seq::new(entries@.len(), |i: int| entries@[i]@),
    {
        DefaultBinaries { entries }
    }

    /// The entries, in name order.
    pub fn entries(&self) -> (r: &Vec<DefaultEntry>)
        ensures
            r@.len() == self@.len(),
            forall|i: int| 0 <= i < r@.len() ==> r@[i]@ == self@[i],
    {
        &self.entries
    }

    /// What the map holds for a name.
    pub fn lookup(&self, name: &str) -> (r: Option<(String, String, bool)>)
        ensures
            match r {
                Some((net, ver, debug)) => spec_default_lookup(self@, name@) == Some(
                    (net@, ver@, debug),
                ),
                None => spec_default_lookup(self@, name@) is None,
            },
    {
        let n = self.entries.len();
        let mut i: usize = 0;
        while i < n
            invariant
                i <= n,
                n == self.entries@.len(),
                forall|j: int| 0 <= j < i ==> self@[j].binary_name != name@,
            decreases n - i,
        {
            if str_eq(self.entries[i].binary_name.as_str(), name) {
                let e = &self.entries[i];
                proof {
                    lemma_default_lookup_at(self@, name@, i as int);
                }
                return Some((e.network.clone(), e.version.clone(), e.debug));
            }
            i = i + 1;
        }
        None
    }

    /// Drops the promoted default for a binary name, if one is
    /// recorded. Every other name keeps its mapping.
    pub fn remove_entry(&mut self, name: &str)
        requires
            default_entries_sorted(old(self)@),
        ensures
            default_entries_sorted(final(self)@),
            spec_default_lookup(final(self)@, name@) is None,
            forall|nm: Seq<char>|
                nm != name@ ==> spec_default_lookup(final(self)@, nm) == spec_default_lookup(
                    old(self)@,
                    nm,
                ),
    {
        let ghost s0 = self@;
        let n = self.entries.len();
        let mut i: usize = 0;
        while i < n
            invariant
                i <= n,
                n == self.entries@.len(),
                self == old(self),
                s0 == self@,
                s0.len() == n,
                default_entries_sorted(s0),
                forall|j: int| 0 <= j < i ==> self@[j].binary_name != name@,
            decreases n - i,
        {
            if str_eq(self.entries[i].binary_name.as_str(), name) {
                proof {
                    assert(s0[i as int].binary_name == name@);
                }
                self.entries.remove(i);
                proof {
                    let s1 = self@;
                    assert(s1 =~= s0.remove(i as int));
                    assert(forall|j: int| 0 <= j < i ==> #[trigger] s1[j] == s0[j]);
                    assert(forall|j: int| i <= j < s1.len() ==> #[trigger] s1[j] == s0[j + 1]);
                    assert forall|p: int, q: int| 0 <= p < q < s1.len() implies spec_str_lt(
                        s1[p].binary_name,
                        s1[q].binary_name,
                    ) by {
                        if p < i && q < i {
                        } else if p < i {
                            assert(spec_str_lt(s0[p].binary_name, s0[q + 1].binary_name));
                        } else {
                            assert(spec_str_lt(s0[p + 1].binary_name, s0[q + 1].binary_name));
                        }
                    }
                    assert(spec_default_lookup(s1, name@) is None) by {
                        if exists|k: int| 0 <= k < s1.len() && s1[k].binary_name == name@ {
                            let k = choose|k: int|
                                0 <= k < s1.len() && s1[k].binary_name == name@;
                            if k < i {
                                assert(s0[k].binary_name != name@);
                            } else {
                                assert(s0[k + 1].binary_name == name@);
                                assert(spec_str_lt(
                                    s0[i as int].binary_name,
                                    s0[k + 1].binary_name,
                                ));
                                lemma_str_lt_irrefl(name@);
                            }
                        }
                    }
                    assert forall|nm: Seq<char>| nm != name@ implies spec_default_lookup(s1, nm)
                        == spec_default_lookup(s0, nm) by {
                        if exists|k: int| 0 <= k < s0.len() && s0[k].binary_name == nm {
                            let k = choose|k: int| 0 <= k < s0.len() && s0[k].binary_name == nm;
                            lemma_sorted_first_entry(s0, nm, k);
                            lemma_default_lookup_at(s0, nm, k);
                            let k1 = if k < i {
                                k
                            } else {
                                k - 1
                            };
                            assert(k != i);
                            assert(s1[k1] == s0[k]);
                            lemma_sorted_first_entry(s1, nm, k1);
                            lemma_default_lookup_at(s1, nm, k1);
                        } else {
                            assert(!(exists|k: int|
                                0 <= k < s1.len() && s1[k].binary_name == nm)) by {
                                if exists|k: int| 0 <= k < s1.len() && s1[k].binary_name == nm {
                                    let k = choose|k: int|
                                        0 <= k < s1.len() && s1[k].binary_name == nm;
                                    if k < i {
                                        assert(s0[k].binary_name == nm);
                                    } else {
                                        assert(s0[k + 1].binary_name == nm);
                                    }
                                }
                            }
                        }
                    }
                }
                return ;
            }
            i = i + 1;
        }
        proof {
            assert(spec_default_lookup(s0, name@) is None) by {
                if exists|k: int| 0 <= k < s0.len() && s0[k].binary_name == name@ {
                    let k = choose|k: int| 0 <= k < s0.len() && s0[k].binary_name == name@;
                    assert(s0[k].binary_name != name@);
                }
            }
        }
    }

    /// Sets the promoted default for a binary name: the one entry for
    /// the name is replaced, or a new entry is inserted at its sorted
    /// position. Every other name keeps its mapping.
    pub fn set_default(&mut self, name: &str, network: &str, version: &str, debug: bool)
        requires
            default_entries_sorted(old(self)@),
        ensures
            default_entries_sorted(final(self)@),
            spec_default_lookup(final(self)@, name@) == Some((network@, version@, debug)),
            forall|nm: Seq<char>|
                nm != name@ ==> spec_default_lookup(final(self)@, nm) == spec_default_lookup(
                    old(self)@,
                    nm,
                ),
    {
        let ghost s0 = self@;
        let n = self.entries.len();
        let mut i: usize = 0;
        loop
            invariant
                i <= n,
                n == self.entries@.len(),
                self == old(self),
                forall|j: int| 0 <= j < i ==> spec_str_lt(self@[j].binary_name, name@),
            ensures
                i <= n,
                self == old(self),
                forall|j: int| 0 <= j < i ==> spec_str_lt(self@[j].binary_name, name@),
                i < n ==> !spec_str_lt(self@[i as int].binary_name, name@),
            decreases n - i,
        {
            if i >= n {
                break ;
            }
            if str_lt(self.entries[i].binary_name.as_str(), name) {
                proof {
                    assert(self@[i as int].binary_name == self.entries@[i as int]@.binary_name);
                }
                i = i + 1;
            } else {
                break ;
            }
        }
        let new_entry = DefaultEntry {
            binary_name: String::from_str(name),
            network: String::from_str(network),
            version: String::from_str(version),
            debug,
        };
        let ghost nv = new_entry@;
        if i < n && str_eq(self.entries[i].binary_name.as_str(), name) {
            self.entries.remove(i);
            self.entries.insert(i, new_entry);
            proof {
                let s1 = self@;
                assert(s1 =~= s0.update(i as int, nv));
                assert(forall|j: int|
                    0 <= j < s1.len() ==> #[trigger] s1[j].binary_name == s0[j].binary_name);
                assert(default_entries_sorted(s1));
                lemma_sorted_first_entry(s1, name@, i as int);
                lemma_default_lookup_at(s1, name@, i as int);
                assert forall|nm: Seq<char>| nm != name@ implies spec_default_lookup(s1, nm)
                    == spec_default_lookup(s0, nm) by {
                    if exists|k: int| 0 <= k < s0.len() && s0[k].binary_name == nm {
                        let k = choose|k: int| is_first_entry(s0, nm, k);
                        assert(is_first_entry(s0, nm, k)) by {
                            let w = choose|w: int| 0 <= w < s0.len() && s0[w].binary_name == nm;
                            lemma_sorted_first_entry(s0, nm, w);
                        }
                        lemma_default_lookup_at(s0, nm, k);
                        assert(is_first_entry(s1, nm, k));
                        lemma_default_lookup_at(s1, nm, k);
                        assert(k != i);
                        assert(s1[k] == s0[k]);
                    } else {
                        assert(!(exists|k: int|
                            0 <= k < s1.len() && s1[k].binary_name == nm)) by {
                            if exists|k: int| 0 <= k < s1.len() && s1[k].binary_name == nm {
                                let k = choose|k: int|
                                    0 <= k < s1.len() && s1[k].binary_name == nm;
                                assert(s0[k].binary_name == nm);
                            }
                        }
                    }
                }
            }
        } else {
            proof {
                if i < n {
                    if self@[i as int].binary_name == name@ {
                        assert(false);
                    }
                    if !spec_str_lt(name@, self@[i as int].binary_name) {
                        lemma_str_lt_connex(self@[i as int].binary_name, name@);
                        assert(false);
                    }
                    assert(spec_str_lt(name@, self@[i as int].binary_name));
                }
            }
            self.entries.insert(i, new_entry);
            proof {
                let s1 = self@;
                assert(s1 =~= s0.insert(i as int, nv));
                assert(s1.len() == s0.len() + 1);
                assert(forall|j: int| 0 <= j < i ==> #[trigger] s1[j] == s0[j]);
                assert(s1[i as int] == nv);
                assert(forall|j: int| i < j < s1.len() ==> #[trigger] s1[j] == s0[j - 1]);
                assert forall|p: int, q: int| 0 <= p < q < s1.len() implies spec_str_lt(
                    s1[p].binary_name,
                    s1[q].binary_name,
                ) by {
                    if p < i && q < i {
                    } else if p < i && q == i {
                        assert(spec_str_lt(s0[p].binary_name, name@));
                    } else if p < i && q > i {
                        assert(spec_str_lt(s0[p].binary_name, s0[q - 1].binary_name));
                    } else if p == i {
                        if q == i + 1 {
                            assert(spec_str_lt(name@, s0[i as int].binary_name));
                        } else {
                            assert(spec_str_lt(name@, s0[i as int].binary_name));
                            assert(spec_str_lt(s0[i as int].binary_name, s0[q - 1].binary_name));
                            lemma_str_lt_trans(
                                name@,
                                s0[i as int].binary_name,
                                s0[q - 1].binary_name,
                            );
                        }
                    } else {
                        assert(spec_str_lt(s0[p - 1].binary_name, s0[q - 1].binary_name));
                    }
                }
                lemma_sorted_first_entry(s1, name@, i as int);
                lemma_default_lookup_at(s1, name@, i as int);
                assert forall|nm: Seq<char>| nm != name@ implies spec_default_lookup(s1, nm)
                    == spec_default_lookup(s0, nm) by {
                    if exists|k: int| 0 <= k < s0.len() && s0[k].binary_name == nm {
                        let k = choose|k: int| 0 <= k < s0.len() && s0[k].binary_name == nm;
                        lemma_sorted_first_entry(s0, nm, k);
                        lemma_default_lookup_at(s0, nm, k);
                        let k1 = if k < i {
                            k
                        } else {
                            k + 1
                        };
                        assert(s1[k1] == s0[k]);
                        lemma_sorted_first_entry(s1, nm, k1);
                        lemma_default_lookup_at(s1, nm, k1);
                    } else {
                        assert(!(exists|k: int|
                            0 <= k < s1.len() && s1[k].binary_name == nm)) by {
                            if exists|k: int| 0 <= k < s1.len() && s1[k].binary_name == nm {
                                let k = choose|k: int|
                                    0 <= k < s1.len() && s1[k].binary_name == nm;
                                if k < i {
                                    assert(s0[k].binary_name == nm);
                                } else if k == i {
                                    assert(nv.binary_name == nm);
                                    assert(false);
                                } else {
                                    assert(s0[k - 1].binary_name == nm);
                                }
                            }
                        }
                    }
                }
            }
        }
    }
}

} // verus!
