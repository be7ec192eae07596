//! Promotion: resolving which installed binary becomes the active
//! default, verifying it is recorded before anything is copied, and
//! updating the map of promoted defaults.

use vstd::prelude::*;

use crate::commands::{BinaryName, CommandMetadata, parse_component_with_version,
    spec_binary_str, spec_parse_component};
use crate::errors::{ErrorView, SuiupError};
use crate::install::{spec_store_path, spec_versioned_name, store_path, versioned_name};
use crate::paths::{join_path, spec_join_path};
use crate::release::{ensure_version_prefix, spec_ensure_version_prefix};
use crate::strutil::str_eq;
use crate::types::{BinaryVersionView, DefaultBinaries, InstalledBinaries,
    default_entries_sorted, spec_default_lookup};
use crate::version::{spec_version_key_lt, version_key_lt};

verus! {

/// Updates the default version file's map with the newly promoted
/// version for each named binary; every other name keeps its mapping.
pub fn update_default_version_file(
    map: &mut DefaultBinaries,
    binaries: &Vec<String>,
    network: &str,
    version: &str,
    debug: bool,
)
    requires
        default_entries_sorted(old(map)@),
    ensures
        default_entries_sorted(final(map)@),
        forall|j: int|
            0 <= j < binaries@.len() ==> spec_default_lookup(final(map)@, #[trigger] binaries@[j]@)
                == Some((network@, version@, debug)),
        forall|nm: Seq<char>|
            (forall|j: int| 0 <= j < binaries@.len() ==> #[trigger] binaries@[j]@ != nm)
                ==> spec_default_lookup(final(map)@, nm) == spec_default_lookup(old(map)@, nm),
{
    let mut i: usize = 0;
    while i < binaries.len()
        invariant
            i <= binaries@.len(),
            default_entries_sorted(map@),
            forall|j: int|
                0 <= j < i ==> spec_default_lookup(map@, #[trigger] binaries@[j]@) == Some(
                    (network@, version@, debug),
                ),
            forall|nm: Seq<char>|
                (forall|j: int| 0 <= j < i ==> #[trigger] binaries@[j]@ != nm)
                    ==> spec_default_lookup(map@, nm) == spec_default_lookup(old(map)@, nm),
        decreases binaries@.len() - i,
    {
        map.set_default(binaries[i].as_str(), network, version, debug);
        i = i + 1;
    }
}

/// The record at `m` matches the name and channel, its version is
/// maximal among the matching records, and every matching record
/// after it is strictly older: `m` is the record "latest" resolution
/// picks.
pub open spec fn is_last_max(
    s: Seq<BinaryVersionView>,
    name: Seq<char>,
    network: Seq<char>,
    m: int,
) -> bool {
    &&& 0 <= m < s.len()
    &&& s[m].binary_name == name
    &&& s[m].network_release == network
    &&& forall|j: int|
        0 <= j < s.len() && s[j].binary_name == name && s[j].network_release == network
            ==> !spec_version_key_lt(s[m].version, #[trigger] s[j].version)
    &&& forall|j: int|
        m < j < s.len() && s[j].binary_name == name && s[j].network_release == network
            ==> spec_version_key_lt(#[trigger] s[j].version, s[m].version)
}

/// The record "latest" resolution picks is unique.
pub proof fn lemma_last_max_unique(
    s: Seq<BinaryVersionView>,
    name: Seq<char>,
    network: Seq<char>,
    m1: int,
    m2: int,
)
    requires
        is_last_max(s, name, network, m1),
        is_last_max(s, name, network, m2),
    ensures
        m1 == m2,
{
    if m1 < m2 {
        assert(spec_version_key_lt(s[m2].version, s[m1].version));
        assert(!spec_version_key_lt(s[m2].version, s[m1].version));
    }
    if m2 < m1 {
        assert(spec_version_key_lt(s[m1].version, s[m2].version));
        assert(!spec_version_key_lt(s[m1].version, s[m2].version));
    }
}

/// The highest installed version of a binary under a channel, by the
/// numeric version order; among records carrying the same version the
/// most recently recorded wins.
pub fn resolve_highest_version(installed: &InstalledBinaries, name: &str, network: &str) -> (r:
    Option<String>)
    ensures
        match r {
            Some(v) => exists|m: int|
                #![trigger installed@[m]]
                is_last_max(installed@, name@, network@, m) && v@ == installed@[m].version,
            None => forall|j: int|
                0 <= j < installed@.len() ==> !(#[trigger] installed@[j].binary_name == name@
                    && installed@[j].network_release == network@),
        },
{
    let records = installed.binaries();
    let mut best: Option<usize> = None;
    let mut i: usize = 0;
    while i < records.len()
        invariant
            i <= records@.len(),
            records@.len() == installed@.len(),
            forall|j: int| 0 <= j < records@.len() ==> records@[j]@ == installed@[j],
            match best {
                Some(m) => 0 <= m < i && installed@[m as int].binary_name == name@
                    && installed@[m as int].network_release == network@ && (forall|j: int|
                    0 <= j < i && installed@[j].binary_name == name@
                        && installed@[j].network_release == network@ ==> !spec_version_key_lt(
                        installed@[m as int].version,
                        #[trigger] installed@[j].version,
                    )) && (forall|j: int|
                    m < j < i && installed@[j].binary_name == name@
                        && installed@[j].network_release == network@ ==> spec_version_key_lt(
                        #[trigger] installed@[j].version,
                        installed@[m as int].version,
                    )),
                None => forall|j: int|
                    0 <= j < i ==> !(#[trigger] installed@[j].binary_name == name@
                        && installed@[j].network_release == network@),
            },
        decreases records@.len() - i,
    {
        let b = &records[i];
        if str_eq(b.binary_name.as_str(), name) && str_eq(b.network_release.as_str(), network) {
            proof {
                assert(installed@[i as int].binary_name == name@);
                assert(installed@[i as int].network_release == network@);
            }
            match best {
                None => {
                    proof {
                        crate::version::lemma_version_key_irrefl(installed@[i as int].version);
                    }
                    best = Some(i);
                },
                Some(m) => {
                    if !version_key_lt(b.version.as_str(), records[m].version.as_str()) {
                        proof {
                            let sm = installed@[m as int].version;
                            let si = installed@[i as int].version;
                            assert(!spec_version_key_lt(si, sm));
                            assert forall|j: int|
                                0 <= j < i + 1 && installed@[j].binary_name == name@
                                    && installed@[j].network_release == network@
                                    implies !spec_version_key_lt(
                                si,
                                #[trigger] installed@[j].version,
                            ) by {
                                if j < i {
                                    crate::version::lemma_version_key_at_least(
                                        si,
                                        sm,
                                        installed@[j].version,
                                    );
                                } else {
                                    crate::version::lemma_version_key_irrefl(si);
                                }
                            }
                        }
                        best = Some(i);
                    } else {
                        proof {
                            let sm = installed@[m as int].version;
                            let si = installed@[i as int].version;
                            assert(spec_version_key_lt(si, sm));
                            crate::version::lemma_version_key_asymm(si, sm);
                        }
                    }
                },
            }
        }
        i = i + 1;
    }
    match best {
        Some(m) => {
            proof {
                assert(is_last_max(installed@, name@, network@, m as int));
            }
            Some(records[m].version.clone())
        },
        None => None,
    }
}

/// Whether the ledger records this (name, channel, version)
/// combination, under any build flavor.
pub fn record_exists(installed: &InstalledBinaries, name: &str, network: &str, version: &str) -> (r:
    bool)
    ensures
        r == (exists|j: int|
            0 <= j < installed@.len() && (#[trigger] installed@[j]).binary_name == name@
                && installed@[j].network_release == network@ && installed@[j].version == version@),
{
    let records = installed.binaries();
    let mut i: usize = 0;
    while i < records.len()
        invariant
            i <= records@.len(),
            records@.len() == installed@.len(),
            forall|j: int| 0 <= j < records@.len() ==> records@[j]@ == installed@[j],
            forall|j: int|
                0 <= j < i ==> !((#[trigger] installed@[j]).binary_name == name@ && installed@[j]
                    .network_release == network@ && installed@[j].version == version@),
        decreases records@.len() - i,
    {
        let b = &records[i];
        if str_eq(b.binary_name.as_str(), name) && str_eq(b.network_release.as_str(), network)
            && str_eq(b.version.as_str(), version) {
            proof {
                assert(installed@[i as int].binary_name == name@ && installed@[i as int]
                    .network_release == network@ && installed@[i as int].version == version@);
            }
            return true;
        }
        i = i + 1;
    }
    false
}

/// Everything promotion will do, resolved and checked up front: which
/// installed file is copied where, and which mapping is recorded.
#[derive(Debug, Clone)]
pub struct PromotionPlan {
    pub binary_name: String,
    pub network: String,
    pub version: String,
    pub debug: bool,
    pub source_path: String,
    pub dest_path: String,
}

/// The channel a promotion resolves to: for the standalone binary the
/// named branch, or its fixed channel; for the others the parsed one.
pub open spec fn spec_promotion_network(
    meta: crate::commands::MetadataView,
    nightly: Option<Seq<char>>,
) -> Seq<char> {
    if meta.name == BinaryName::Mvr {
        match nightly {
            Some(b) => b,
            None => "standalone"@,
        }
    } else {
        meta.network
    }
}

/// The version a promotion resolves to, when one can be resolved: an
/// explicit version with the upstream `v` prefix, else the version of
/// the record "latest" resolution picks.
pub open spec fn is_resolved_version(
    s: Seq<BinaryVersionView>,
    meta: crate::commands::MetadataView,
    network: Seq<char>,
    v: Seq<char>,
) -> bool {
    match meta.version {
        Some(x) => v == spec_ensure_version_prefix(x),
        None => exists|m: int|
            #![trigger s[m]]
            is_last_max(s, spec_binary_str(meta.name), network, m) && v == s[m].version,
    }
}

/// Resolves a promotion request against the ledger: parses the spec,
/// fixes the channel, resolves an omitted version to the highest
/// installed one, and refuses to promote any combination the ledger
/// does not record. Every failure carries its ground, so a request
/// that parses and whose resolved combination is recorded succeeds.
pub fn plan_set_default(
    name: &str,
    debug: bool,
    nightly: Option<&String>,
    installed: &InstalledBinaries,
    binaries_dir: &str,
    default_bin_dir: &str,
) -> (r: Result<PromotionPlan, SuiupError>)
    ensures
        ({
            let nv = match nightly {
                Some(b) => Some(b@),
                None => None::<Seq<char>>,
            };
            &&& (name@.len() == 0 && nightly is None) ==> (r is Err && r->Err_0@
                == ErrorView::SetDefaultArgs)
            &&& (r is Err ==> {
                let e = r->Err_0@;
                let meta = spec_parse_component(name@)->Ok_0;
                let net = spec_promotion_network(meta, nv);
                let binary = spec_binary_str(meta.name);
                ||| (e == ErrorView::SetDefaultArgs && name@.len() == 0 && nightly is None)
                ||| (spec_parse_component(name@) is Err && e == spec_parse_component(
                    name@,
                )->Err_0)
                ||| (spec_parse_component(name@) is Ok && e == ErrorView::NoBinariesForNetwork(
                    net,
                ) && (forall|j: int|
                    0 <= j < installed@.len() ==> (#[trigger] installed@[j]).network_release
                        != net))
                ||| (spec_parse_component(name@) is Ok && e == ErrorView::BinaryNotInstalled(
                    binary,
                ) && (forall|j: int|
                    0 <= j < installed@.len() ==> (#[trigger] installed@[j]).binary_name
                        != binary))
                ||| (spec_parse_component(name@) is Ok && meta.version is None && e == (
                ErrorView::NoVersionForBinary { name: binary, network: net }) && (forall|j: int|
                    0 <= j < installed@.len() ==> !((#[trigger] installed@[j]).binary_name
                        == binary && installed@[j].network_release == net)))
                ||| (spec_parse_component(name@) is Ok && meta.version is Some && e == (
                ErrorView::RecordNotFound {
                    binary_version: spec_versioned_name(
                        binary,
                        spec_ensure_version_prefix(meta.version->Some_0),
                        false,
                    ),
                    network: net,
                }) && (forall|j: int|
                    0 <= j < installed@.len() ==> !((#[trigger] installed@[j]).binary_name
                        == binary && installed@[j].network_release == net && installed@[j].version
                        == spec_ensure_version_prefix(meta.version->Some_0))))
            })
            &&& (r is Ok ==> {
                let p = r->Ok_0;
                let meta = spec_parse_component(name@)->Ok_0;
                &&& spec_parse_component(name@) is Ok
                &&& p.binary_name@ == spec_binary_str(meta.name)
                &&& p.network@ == spec_promotion_network(meta, nv)
                &&& p.debug == debug
                &&& is_resolved_version(installed@, meta, p.network@, p.version@)
                &&& (exists|j: int|
                    0 <= j < installed@.len() && (#[trigger] installed@[j]).binary_name
                        == p.binary_name@ && installed@[j].network_release == p.network@
                        && installed@[j].version == p.version@)
                &&& p.dest_path@ == spec_join_path(
                    default_bin_dir@,
                    spec_versioned_name(p.binary_name@, ""@, debug),
                )
                &&& p.source_path@ == spec_store_path(
                    binaries_dir@,
                    p.network@,
                    nightly is Some,
                    spec_versioned_name(p.binary_name@, p.version@, debug),
                )
            })
        }),
{
    if name.unicode_len() == 0 && nightly.is_none() {
        return Err(SuiupError::SetDefaultArgs);
    }
    let meta = match parse_component_with_version(name) {
        Ok(m) => m,
        Err(e) => {
            return Err(e);
        },
    };
    let CommandMetadata { name: binary, network, version } = meta;
    let binary_str = String::from_str(binary.to_str());
    let network_str: String = if binary == BinaryName::Mvr {
        match nightly {
            Some(b) => (*b).clone(),
            None => String::from_str("standalone"),
        }
    } else {
        network
    };
    let mut any_for_network = false;
    let records = installed.binaries();
    let mut i: usize = 0;
    while i < records.len()
        invariant
            i <= records@.len(),
            records@.len() == installed@.len(),
            forall|j: int| 0 <= j < records@.len() ==> records@[j]@ == installed@[j],
            any_for_network == exists|j: int|
                0 <= j < i && (#[trigger] installed@[j]).network_release == network_str@,
        decreases records@.len() - i,
    {
        if str_eq(records[i].network_release.as_str(), network_str.as_str()) {
            proof {
                assert(installed@[i as int].network_release == network_str@);
            }
            any_for_network = true;
        }
        i = i + 1;
    }
    if !any_for_network {
        return Err(SuiupError::NoBinariesForNetwork(network_str));
    }
    let mut binary_installed = false;
    let mut k: usize = 0;
    while k < records.len()
        invariant
            k <= records@.len(),
            records@.len() == installed@.len(),
            forall|j: int| 0 <= j < records@.len() ==> records@[j]@ == installed@[j],
            binary_installed == exists|j: int|
                0 <= j < k && (#[trigger] installed@[j]).binary_name == binary_str@,
        decreases records@.len() - k,
    {
        if str_eq(records[k].binary_name.as_str(), binary_str.as_str()) {
            proof {
                assert(installed@[k as int].binary_name == binary_str@);
            }
            binary_installed = true;
        }
        k = k + 1;
    }
    if !binary_installed {
        return Err(SuiupError::BinaryNotInstalled(binary_str));
    }
    let resolved_version: String = match version {
        Some(v) => ensure_version_prefix(v.as_str()),
        None => {
            match resolve_highest_version(installed, binary_str.as_str(), network_str.as_str()) {
                Some(v) => v,
                None => {
                    return Err(
                        SuiupError::NoVersionForBinary {
                            name: binary_str,
                            network: network_str,
                        },
                    );
                },
            }
        },
    };
    if !record_exists(
        installed,
        binary_str.as_str(),
        network_str.as_str(),
        resolved_version.as_str(),
    ) {
        let bv = versioned_name(binary_str.as_str(), resolved_version.as_str(), false);
        return Err(SuiupError::RecordNotFound { binary_version: bv, network: network_str });
    }
    let dest_name = versioned_name(binary_str.as_str(), "", debug);
    let dest_path = join_path(default_bin_dir, dest_name.as_str());
    let src_name = versioned_name(binary_str.as_str(), resolved_version.as_str(), debug);
    let source_path = store_path(
        binaries_dir,
        network_str.as_str(),
        nightly.is_some(),
        src_name.as_str(),
    );
    proof {
        reveal_strlit("");
    }
    Ok(
        PromotionPlan {
            binary_name: binary_str,
            network: network_str,
            version: resolved_version,
            debug,
            source_path,
            dest_path,
        },
    )
}

/// Promotion consistency: the defaults map written after a successful
/// promotion, read back from its file, holds exactly the entries that
/// were written — so the record it reports for the promoted binary is
/// the promoted channel, version and flavor that `set_default` put
/// there, and with the plan's contract the file placed at the default
/// path is the one the ledger records for exactly that version.
pub proof fn lemma_promotion_consistent(
    es: Seq<crate::types::DefaultEntryView>,
    name: Seq<char>,
)
    ensures
        crate::json::spec_default_doc(crate::json::ser_default(es)) == Some(es),
        spec_default_lookup(
            crate::json::spec_default_doc(crate::json::ser_default(es))->Some_0,
            name,
        ) == spec_default_lookup(es, name),
{
    crate::json::lemma_default_round_trip(es);
}

} // verus!
