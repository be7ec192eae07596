//! Updating: validating an update request and determining, channel by
//! channel, the locally-known latest version to compare against the
//! upstream one.

use vstd::prelude::*;

use crate::commands::{BinaryName, CommandMetadata, parse_component_with_version,
    spec_parse_component};
use crate::errors::{ErrorView, SuiupError};
use crate::promote::{is_last_max, resolve_highest_version};
use crate::show::{insert_sorted_unique, keys_contain, keys_sorted};
use crate::strutil::str_eq;
use crate::types::InstalledBinaries;

verus! {

/// Validates an update request: the argument must parse, carry no
/// explicit version, and name a binary the ledger records.
pub fn validate_update_request(binary_name: &str, installed: &InstalledBinaries) -> (r: Result<
    BinaryName,
    SuiupError,
>)
    ensures
        match r {
            Ok(b) => {
                &&& binary_name@.len() > 0
                &&& spec_parse_component(binary_name@) is Ok
                &&& spec_parse_component(binary_name@)->Ok_0.name == b
                &&& spec_parse_component(binary_name@)->Ok_0.version is None
                &&& exists|j: int|
                    0 <= j < installed@.len() && (#[trigger] installed@[j]).binary_name
                        == crate::commands::spec_binary_str(b)
            },
            Err(e) => {
                ||| binary_name@.len() == 0 && e@ == ErrorView::EmptyUpdateArgument
                ||| binary_name@.len() > 0 && spec_parse_component(binary_name@) is Err && e@
                    == spec_parse_component(binary_name@)->Err_0
                ||| spec_parse_component(binary_name@) is Ok && spec_parse_component(
                    binary_name@,
                )->Ok_0.version is Some && e@ == ErrorView::UpdateWithVersion
                ||| spec_parse_component(binary_name@) is Ok && e@
                    == ErrorView::UpdateBinaryNotInstalled(
                    crate::commands::spec_binary_str(
                        spec_parse_component(binary_name@)->Ok_0.name,
                    ),
                ) && (forall|j: int|
                    0 <= j < installed@.len() ==> (#[trigger] installed@[j]).binary_name
                        != crate::commands::spec_binary_str(
                        spec_parse_component(binary_name@)->Ok_0.name,
                    ))
            },
        },
{
    if binary_name.unicode_len() == 0 {
        return Err(SuiupError::EmptyUpdateArgument);
    }
    let meta = match parse_component_with_version(binary_name) {
        Ok(m) => m,
        Err(e) => {
            return Err(e);
        },
    };
    let CommandMetadata { name, network: _network, version } = meta;
    if version.is_some() {
        return Err(SuiupError::UpdateWithVersion);
    }
    let name_str = name.to_str();
    let records = installed.binaries();
    let mut found = false;
    let mut i: usize = 0;
    while i < records.len()
        invariant
            i <= records@.len(),
            records@.len() == installed@.len(),
            forall|j: int| 0 <= j < records@.len() ==> records@[j]@ == installed@[j],
            found == exists|j: int|
                0 <= j < i && (#[trigger] installed@[j]).binary_name == name_str@,
        decreases records@.len() - i,
    {
        if str_eq(records[i].binary_name.as_str(), name_str) {
            proof {
                assert(installed@[i as int].binary_name == name_str@);
            }
            found = true;
        }
        i = i + 1;
    }
    if !found {
        return Err(SuiupError::UpdateBinaryNotInstalled(String::from_str(name_str)));
    }
    Ok(name)
}

/// The pair carries the version "latest" resolution picks for its
/// channel.
pub open spec fn pair_is_latest(
    s: Seq<crate::types::BinaryVersionView>,
    name: Seq<char>,
    pair: (String, String),
) -> bool {
    exists|m: int|
        #![trigger s[m]]
        is_last_max(s, name, pair.0@, m) && pair.1@ == s[m].version
}

/// Some pair in the list is keyed by the channel.
pub open spec fn pairs_contain(r: Seq<(String, String)>, net: Seq<char>) -> bool {
    exists|p: int| 0 <= p < r.len() && r[p].0@ == net
}

/// The locally-known latest version of a binary under each channel it
/// is installed on: one pair per channel, channels in name order, each
/// carrying the version "latest" resolution picks there.
pub fn local_latest_versions(installed: &InstalledBinaries, name: &str) -> (r: Vec<
    (String, String),
>)
    ensures
        forall|p: int, q: int|
            0 <= p < q < r@.len() ==> crate::strutil::spec_str_lt(r@[p].0@, r@[q].0@),
        forall|p: int|
            0 <= p < r@.len() ==> pair_is_latest(installed@, name@, #[trigger] r@[p]),
        forall|j: int|
            0 <= j < installed@.len() && (#[trigger] installed@[j]).binary_name == name@
                ==> pairs_contain(r@, installed@[j].network_release),
{
    let records = installed.binaries();
    let mut keys: Vec<String> = Vec::new();
    let n = records.len();
    let mut i: usize = 0;
    while i < n
        invariant
            i <= n,
            n == records@.len(),
            records@.len() == installed@.len(),
            forall|j: int| 0 <= j < records@.len() ==> records@[j]@ == installed@[j],
            keys_sorted(keys.deep_view()),
            forall|j: int|
                0 <= j < i && (#[trigger] installed@[j]).binary_name == name@ ==> keys_contain(
                    keys.deep_view(),
                    installed@[j].network_release,
                ),
            forall|nm: Seq<char>|
                keys_contain(keys.deep_view(), nm) ==> exists|j: int|
                    0 <= j < i && (#[trigger] installed@[j]).binary_name == name@ && installed@[
                        j
                    ].network_release == nm,
        decreases n - i,
    {
        if str_eq(records[i].binary_name.as_str(), name) {
            proof {
                assert(installed@[i as int].binary_name == name@);
            }
            insert_sorted_unique(&mut keys, records[i].network_release.as_str());
        }
        i = i + 1;
    }
    let mut out: Vec<(String, String)> = Vec::new();
    let mut g: usize = 0;
    while g < keys.len()
        invariant
            g <= keys@.len(),
            records@.len() == installed@.len(),
            forall|j: int| 0 <= j < records@.len() ==> records@[j]@ == installed@[j],
            keys_sorted(keys.deep_view()),
            forall|j: int|
                0 <= j < installed@.len() && (#[trigger] installed@[j]).binary_name == name@
                    ==> keys_contain(keys.deep_view(), installed@[j].network_release),
            forall|nm: Seq<char>|
                keys_contain(keys.deep_view(), nm) ==> exists|j: int|
                    0 <= j < installed@.len() && (#[trigger] installed@[j]).binary_name == name@
                        && installed@[j].network_release == nm,
            out@.len() == g,
            forall|p: int| 0 <= p < g ==> (#[trigger] out@[p]).0@ == keys.deep_view()[p],
            forall|p: int|
                0 <= p < g ==> pair_is_latest(installed@, name@, #[trigger] out@[p]),
        decreases keys@.len() - g,
    {
        proof {
            assert(keys.deep_view()[g as int] == keys@[g as int]@);
            assert(keys_contain(keys.deep_view(), keys@[g as int]@));
        }
        match resolve_highest_version(installed, name, keys[g].as_str()) {
            Some(v) => {
                out.push((keys[g].clone(), v));
            },
            None => {
                proof {
                    let j = choose|j: int|
                        0 <= j < installed@.len() && (#[trigger] installed@[j]).binary_name
                            == name@ && installed@[j].network_release == keys@[g as int]@;
                    assert(false);
                }
            },
        }
        g = g + 1;
    }
    proof {
        assert forall|j: int|
            0 <= j < installed@.len() && (#[trigger] installed@[j]).binary_name == name@
                implies pairs_contain(out@, installed@[j].network_release) by {
            assert(keys_contain(keys.deep_view(), installed@[j].network_release));
            let k = choose|k: int|
                0 <= k < keys.deep_view().len() && keys.deep_view()[k] == installed@[
                    j
                ].network_release;
            assert(0 <= k < out@.len());
            assert(out@[k].0@ == keys.deep_view()[k]);
        }
    }
    out
}

/// Whether an update is due: the locally-known latest version and the
/// upstream latest differ.
pub fn update_needed(local_version: &str, latest_version: &str) -> (r: bool)
    ensures
        r == (local_version@ != latest_version@),
{
    !str_eq(local_version, latest_version)
}

} // verus!
