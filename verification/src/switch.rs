//! Switching the active binary: parsing a `binary@release` spec,
//! finding the newest matching installed record, and naming the file
//! copy that activates it.

use vstd::prelude::*;

use crate::errors::{ErrorView, SuiupError};
use crate::install::{spec_store_path, spec_versioned_name, store_path, versioned_name};
use crate::paths::{join_path, spec_join_path};
use crate::strutil::{contains_str, find_str_spec, spec_contains, spec_find_str, str_eq};
use crate::version::{spec_version_key_lt, version_key_lt};
use crate::types::{BinaryVersion, BinaryVersionView, InstalledBinaries};

verus! {

/// What a switch spec denotes: a binary name and a release, separated
/// by exactly one `@`, neither of them empty.
pub open spec fn spec_parse_binary_spec(s: Seq<char>) -> Result<(Seq<char>, Seq<char>), ErrorView> {
    match spec_find_str(s, "@"@) {
        None => Err(ErrorView::SwitchSpecFormat),
        Some(i) => {
            let binary = s.take(i);
            let release = s.skip(i + 1);
            if spec_contains(release, "@"@) {
                Err(ErrorView::SwitchSpecFormat)
            } else if binary.len() == 0 || release.len() == 0 {
                Err(ErrorView::SwitchSpecEmpty)
            } else {
                Ok((binary, release))
            }
        },
    }
}

/// Parse binary@network_release format.
pub fn parse_binary_spec(spec: &str) -> (r: Result<(String, String), SuiupError>)
    ensures
        match r {
            Ok((b, n)) => spec_parse_binary_spec(spec@) == Ok::<_, ErrorView>((b@, n@)),
            Err(e) => spec_parse_binary_spec(spec@) == Err::<(Seq<char>, Seq<char>), _>(e@),
        },
{
    proof {
        reveal_strlit("@");
    }
    let i = match find_str_spec(spec, "@") {
        Some(i) => i,
        None => {
            return Err(SuiupError::SwitchSpecFormat);
        },
    };
    let len = spec.unicode_len();
    let binary = spec.substring_char(0, i);
    let release = spec.substring_char(i + 1, len);
    proof {
        assert(binary@ =~= spec@.take(i as int));
        assert(release@ =~= spec@.skip(i + 1));
    }
    if contains_str(release, "@") {
        return Err(SuiupError::SwitchSpecFormat);
    }
    if binary.unicode_len() == 0 || release.unicode_len() == 0 {
        return Err(SuiupError::SwitchSpecEmpty);
    }
    Ok((binary.to_owned(), release.to_owned()))
}

/// The record at `m` matches the name and release, no matching record
/// has a later version under the numeric version order, and every
/// earlier matching record is strictly older: the record switching
/// picks as the latest.
pub open spec fn is_first_latest(
    s: Seq<BinaryVersionView>,
    name: Seq<char>,
    network: Seq<char>,
    m: int,
) -> bool {
    &&& 0 <= m < s.len()
    &&& s[m].binary_name == name
    &&& s[m].network_release == network
    &&& forall|j: int|
        0 <= j < s.len() && s[j].binary_name == name && s[j].network_release == network
            ==> !spec_version_key_lt(s[m].version, #[trigger] s[j].version)
    &&& forall|j: int|
        0 <= j < m && s[j].binary_name == name && s[j].network_release == network
            ==> spec_version_key_lt(#[trigger] s[j].version, s[m].version)
}

/// Find the matching binary from installed binaries: the latest record
/// under the given name and release, by the numeric, component-wise
/// version order.
pub fn find_matching_binary(
    installed_binaries: &InstalledBinaries,
    binary_name: &str,
    network_release: &str,
) -> (r: Result<BinaryVersion, SuiupError>)
    ensures
        match r {
            Ok(b) => exists|m: int|
                #![trigger installed_binaries@[m]]
                is_first_latest(installed_binaries@, binary_name@, network_release@, m) && b@
                    == installed_binaries@[m],
            Err(e) => (forall|j: int|
                0 <= j < installed_binaries@.len() ==> !((#[trigger] installed_binaries@[j])
                    .binary_name == binary_name@ && installed_binaries@[j].network_release
                    == network_release@)) && e@ == (ErrorView::NoInstalledForSpec {
                binary: binary_name@,
                network: network_release@,
            }),
        },
{
    let records = installed_binaries.binaries();
    let mut best: Option<usize> = None;
    let mut i: usize = 0;
    while i < records.len()
        invariant
            i <= records@.len(),
            records@.len() == installed_binaries@.len(),
            forall|j: int| 0 <= j < records@.len() ==> records@[j]@ == installed_binaries@[j],
            match best {
                Some(m) => 0 <= m < i && installed_binaries@[m as int].binary_name == binary_name@
                    && installed_binaries@[m as int].network_release == network_release@ && (forall|
                    j: int,
                |
                    0 <= j < i && installed_binaries@[j].binary_name == binary_name@
                        && installed_binaries@[j].network_release == network_release@
                        ==> !spec_version_key_lt(
                        installed_binaries@[m as int].version,
                        #[trigger] installed_binaries@[j].version,
                    )) && (forall|j: int|
                    0 <= j < m && installed_binaries@[j].binary_name == binary_name@
                        && installed_binaries@[j].network_release == network_release@
                        ==> spec_version_key_lt(
                        #[trigger] installed_binaries@[j].version,
                        installed_binaries@[m as int].version,
                    )),
                None => forall|j: int|
                    0 <= j < i ==> !(#[trigger] installed_binaries@[j].binary_name == binary_name@
                        && installed_binaries@[j].network_release == network_release@),
            },
        decreases records@.len() - i,
    {
        let b = &records[i];
        if str_eq(b.binary_name.as_str(), binary_name) && str_eq(
            b.network_release.as_str(),
            network_release,
        ) {
            proof {
                assert(installed_binaries@[i as int].binary_name == binary_name@);
                assert(installed_binaries@[i as int].network_release == network_release@);
            }
            match best {
                None => {
                    proof {
                        crate::version::lemma_version_key_irrefl(
                            installed_binaries@[i as int].version,
                        );
                    }
                    best = Some(i);
                },
                Some(m) => {
                    if version_key_lt(records[m].version.as_str(), b.version.as_str()) {
                        proof {
                            let sm = installed_binaries@[m as int].version;
                            let si = installed_binaries@[i as int].version;
                            assert forall|j: int|
                                0 <= j < i + 1 && installed_binaries@[j].binary_name
                                    == binary_name@ && installed_binaries@[j].network_release
                                    == network_release@ implies !spec_version_key_lt(
                                si,
                                #[trigger] installed_binaries@[j].version,
                            ) by {
                                if j < i {
                                    let sj = installed_binaries@[j].version;
                                    if spec_version_key_lt(si, sj) {
                                        crate::version::lemma_version_key_asymm(si, sj);
                                        crate::version::lemma_version_key_at_least(sm, sj, si);
                                    }
                                } else {
                                    crate::version::lemma_version_key_irrefl(si);
                                }
                            }
                            assert forall|j: int|
                                0 <= j < i && installed_binaries@[j].binary_name == binary_name@
                                    && installed_binaries@[j].network_release == network_release@
                                    implies spec_version_key_lt(
                                #[trigger] installed_binaries@[j].version,
                                si,
                            ) by {
                                let sj = installed_binaries@[j].version;
                                if j != m {
                                    if !spec_version_key_lt(sj, si) {
                                        crate::version::lemma_version_key_at_least(sm, sj, si);
                                    }
                                }
                            }
                        }
                        best = Some(i);
                    }
                },
            }
        }
        i = i + 1;
    }
    match best {
        Some(m) => {
            proof {
                assert(is_first_latest(
                    installed_binaries@,
                    binary_name@,
                    network_release@,
                    m as int,
                ));
            }
            Ok(records[m].duplicate())
        },
        None => Err(
            SuiupError::NoInstalledForSpec {
                binary: String::from_str(binary_name),
                network: String::from_str(network_release),
            },
        ),
    }
}

/// Construct the source path for a binary: its file in the version
/// store, with the extra level branch builds carry.
pub fn get_binary_source_path(binary: &BinaryVersion, binaries_dir: &str) -> (r: String)
    ensures
        r@ == spec_store_path(
            binaries_dir@,
            binary@.network_release,
            binary@.version == "nightly"@,
            spec_versioned_name(binary@.binary_name, binary@.version, binary@.debug),
        ),
{
    let filename = versioned_name(
        binary.binary_name.as_str(),
        binary.version.as_str(),
        binary.debug,
    );
    let nightly = str_eq(binary.version.as_str(), "nightly");
    store_path(
        binaries_dir,
        binary.network_release.as_str(),
        nightly,
        filename.as_str(),
    )
}

/// Construct the destination path for a binary: its bare name, or the
/// debug-suffixed name, in the default directory.
pub fn get_binary_destination_path(binary: &BinaryVersion, default_bin_dir: &str) -> (r: String)
    ensures
        r@ == spec_join_path(
            default_bin_dir@,
            spec_versioned_name(binary@.binary_name, ""@, binary@.debug),
        ),
{
    proof {
        reveal_strlit("");
    }
    let name = versioned_name(binary.binary_name.as_str(), "", binary.debug);
    join_path(default_bin_dir, name.as_str())
}

/// The copy that activates an installed binary: from its file in the
/// version store to its bare name on the default path.
pub fn switch_to_binary(binary: &BinaryVersion, binaries_dir: &str, default_bin_dir: &str) -> (r:
    (String, String))
    ensures
        r.0@ == spec_store_path(
            binaries_dir@,
            binary@.network_release,
            binary@.version == "nightly"@,
            spec_versioned_name(binary@.binary_name, binary@.version, binary@.debug),
        ),
        r.1@ == spec_join_path(
            default_bin_dir@,
            spec_versioned_name(binary@.binary_name, ""@, binary@.debug),
        ),
{
    let src = get_binary_source_path(binary, binaries_dir);
    let dst = get_binary_destination_path(binary, default_bin_dir);
    (src, dst)
}

/// Resolves a switch request: the record to activate and the copy
/// that activates it, from source in the version store to the bare
/// name on the default path.
pub fn plan_switch(
    installed: &InstalledBinaries,
    binary_spec: &str,
    binaries_dir: &str,
    default_bin_dir: &str,
) -> (r: Result<(BinaryVersion, String, String), SuiupError>)
    ensures
        match r {
            Ok((b, src, dst)) => {
                &&& spec_parse_binary_spec(binary_spec@) is Ok
                &&& exists|m: int|
                    #![trigger installed@[m]]
                    is_first_latest(
                        installed@,
                        spec_parse_binary_spec(binary_spec@)->Ok_0.0,
                        spec_parse_binary_spec(binary_spec@)->Ok_0.1,
                        m,
                    ) && b@ == installed@[m]
                &&& src@ == spec_store_path(
                    binaries_dir@,
                    b@.network_release,
                    b@.version == "nightly"@,
                    spec_versioned_name(b@.binary_name, b@.version, b@.debug),
                )
                &&& dst@ == spec_join_path(
                    default_bin_dir@,
                    spec_versioned_name(b@.binary_name, ""@, b@.debug),
                )
            },
            Err(e) => {
                ||| spec_parse_binary_spec(binary_spec@) is Err && e@ == spec_parse_binary_spec(
                    binary_spec@,
                )->Err_0
                ||| spec_parse_binary_spec(binary_spec@) is Ok && e@
                    == (ErrorView::NoInstalledForSpec {
                    binary: spec_parse_binary_spec(binary_spec@)->Ok_0.0,
                    network: spec_parse_binary_spec(binary_spec@)->Ok_0.1,
                }) && (forall|j: int|
                    0 <= j < installed@.len() ==> !((#[trigger] installed@[j]).binary_name
                        == spec_parse_binary_spec(binary_spec@)->Ok_0.0 && installed@[
                        j
                    ].network_release == spec_parse_binary_spec(binary_spec@)->Ok_0.1))
            },
        },
{
    let (binary_name, network_release) = match parse_binary_spec(binary_spec) {
        Ok(v) => v,
        Err(e) => {
            return Err(e);
        },
    };
    let record = match find_matching_binary(
        installed,
        binary_name.as_str(),
        network_release.as_str(),
    ) {
        Ok(b) => b,
        Err(e) => {
            return Err(e);
        },
    };
    let (src, dst) = switch_to_binary(&record, binaries_dir, default_bin_dir);
    Ok((record, src, dst))
}

} // verus!
