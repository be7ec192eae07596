//! Showing what is installed and what is active: grouping the ledger
//! by release channel and turning the defaults map into display rows.

use vstd::prelude::*;

use crate::strutil::{lemma_str_lt_connex, lemma_str_lt_trans, spec_str_lt, str_eq, str_lt};
use crate::types::{Binaries, BinaryVersion, BinaryVersionView, DefaultBinaries, InstalledBinaries};

verus! {

/// Some key in the list equals the name.
pub open spec fn keys_contain(ks: Seq<Seq<char>>, nm: Seq<char>) -> bool {
    exists|i: int| 0 <= i < ks.len() && ks[i] == nm
}

/// The keys are in strictly increasing order.
pub open spec fn keys_sorted(ks: Seq<Seq<char>>) -> bool {
    forall|p: int, q: int| 0 <= p < q < ks.len() ==> spec_str_lt(ks[p], ks[q])
}

/// Inserts a name into a sorted key list, keeping it sorted; a name
/// already present is left alone.
pub fn insert_sorted_unique(keys: &mut Vec<String>, name: &str)
    requires
        keys_sorted(old(keys).deep_view()),
    ensures
        keys_sorted(final(keys).deep_view()),
        forall|nm: Seq<char>|
            keys_contain(final(keys).deep_view(), nm) <==> (keys_contain(
                old(keys).deep_view(),
                nm,
            ) || nm == name@),
{
    let ghost s0 = keys.deep_view();
    let n = keys.len();
    let mut i: usize = 0;
    loop
        invariant
            i <= n,
            n == keys@.len(),
            keys == old(keys),
            s0 == keys.deep_view(),
            s0.len() == n,
            forall|j: int| 0 <= j < n ==> s0[j] == keys@[j]@,
            forall|j: int| 0 <= j < i ==> spec_str_lt(s0[j], name@),
        ensures
            i <= n,
            keys == old(keys),
            s0 == keys.deep_view(),
            forall|j: int| 0 <= j < i ==> spec_str_lt(s0[j], name@),
            i < n ==> !spec_str_lt(s0[i as int], name@),
        decreases n - i,
    {
        if i >= n {
            break ;
        }
        if str_lt(keys[i].as_str(), name) {
            i = i + 1;
        } else {
            break ;
        }
    }
    if i < n && str_eq(keys[i].as_str(), name) {
        proof {
            assert(s0[i as int] == name@);
            assert(keys_contain(s0, name@));
        }
        return ;
    }
    proof {
        if i < n {
            if s0[i as int] == name@ {
                assert(false);
            }
            if !spec_str_lt(name@, s0[i as int]) {
                lemma_str_lt_connex(s0[i as int], name@);
                assert(false);
            }
        }
    }
    keys.insert(i, String::from_str(name));
    proof {
        let s1 = keys.deep_view();
        assert(s1 =~= s0.insert(i as int, name@)) by {
            assert(forall|j: int| 0 <= j < s1.len() ==> s1[j] == keys@[j]@);
            assert(forall|j: int|
                0 <= j < s1.len() ==> keys@[j]@ == #[trigger] s0.insert(i as int, name@)[j]);
        }
        assert forall|p: int, q: int| 0 <= p < q < s1.len() implies spec_str_lt(s1[p], s1[q]) by {
            if p < i && q < i {
            } else if p < i && q == i {
            } else if p < i && q > i {
                assert(spec_str_lt(s0[p], s0[q - 1]));
            } else if p == i {
                if q > i + 1 {
                    lemma_str_lt_trans(name@, s0[i as int], s0[q - 1]);
                }
            } else {
                assert(spec_str_lt(s0[p - 1], s0[q - 1]));
            }
        }
        assert forall|nm: Seq<char>|
            keys_contain(s1, nm) <==> (keys_contain(s0, nm) || nm == name@) by {
            if keys_contain(s1, nm) {
                let k = choose|k: int| 0 <= k < s1.len() && s1[k] == nm;
                if k < i {
                    assert(s0[k] == nm);
                } else if k == i {
                } else {
                    assert(s0[k - 1] == nm);
                }
            }
            if keys_contain(s0, nm) {
                let k = choose|k: int| 0 <= k < s0.len() && s0[k] == nm;
                if k < i {
                    assert(s1[k] == nm);
                } else {
                    assert(s1[k + 1] == nm);
                }
            }
            if nm == name@ {
                assert(s1[i as int] == nm);
            }
        }
    }
}

/// Some group in the result is keyed by the channel.
pub open spec fn groups_contain(r: Seq<(String, Vec<BinaryVersion>)>, net: Seq<char>) -> bool {
    exists|g: int| 0 <= g < r.len() && r[g].0@ == net
}

/// The records of the ledger that belong to a channel.
pub open spec fn spec_group(s: Seq<BinaryVersionView>, net: Seq<char>) -> Seq<BinaryVersionView> {
    s.filter(|b: BinaryVersionView| b.network_release == net)
}

/// The records of the ledger under one channel, in ledger order.
fn collect_group(installed: &InstalledBinaries, net: &str) -> (r: Vec<BinaryVersion>)
    ensures
        Seq::new(r@.len(), |k: int| r@[k]@) == spec_group(installed@, net@),
{
    let ghost pred = |b: BinaryVersionView| b.network_release == net@;
    let records = installed.binaries();
    let mut out: Vec<BinaryVersion> = Vec::new();
    let n = records.len();
    let mut i: usize = 0;
    while i < n
        invariant
            i <= n,
            n == records@.len(),
            records@.len() == installed@.len(),
            forall|j: int| 0 <= j < records@.len() ==> records@[j]@ == installed@[j],
            pred == (|b: BinaryVersionView| b.network_release == net@),
            Seq::new(out@.len(), |k: int| out@[k]@) =~= installed@.take(i as int).filter(pred),
        decreases n - i,
    {
        let keep = str_eq(records[i].network_release.as_str(), net);
        proof {
            reveal_with_fuel(Seq::filter, 2);
            let prefix = installed@.take(i as int);
            assert(installed@.take(i + 1) =~= prefix + seq![installed@[i as int]]);
            Seq::filter_distributes_over_add(prefix, seq![installed@[i as int]], pred);
            let single = seq![installed@[i as int]];
            assert(single.drop_last() =~= Seq::<BinaryVersionView>::empty());
            assert(Seq::<BinaryVersionView>::empty().filter(pred) =~= Seq::<
                BinaryVersionView,
            >::empty());
            assert(single.last() == installed@[i as int]);
            if keep {
                assert(single.filter(pred) =~= single);
            } else {
                assert(single.filter(pred) =~= Seq::<BinaryVersionView>::empty());
            }
        }
        if keep {
            let b = records[i].duplicate();
            proof {
                assert(b@ == installed@[i as int]);
            }
            out.push(b);
        }
        proof {
            assert(Seq::new(out@.len(), |k: int| out@[k]@) =~= installed@.take(i + 1).filter(
                pred,
            ));
        }
        i = i + 1;
    }
    proof {
        assert(installed@.take(n as int) =~= installed@);
    }
    out
}

/// Returns a map of installed binaries grouped by network releases:
/// one group per channel, channels in name order, each group holding
/// that channel's records in ledger order.
pub fn installed_binaries_grouped_by_network(installed: &InstalledBinaries) -> (r: Vec<
    (String, Vec<BinaryVersion>),
>)
    ensures
        forall|p: int, q: int| 0 <= p < q < r@.len() ==> spec_str_lt(r@[p].0@, r@[q].0@),
        forall|g: int|
            0 <= g < r@.len() ==> Seq::new(
                (#[trigger] r@[g]).1@.len(),
                |k: int| r@[g].1@[k]@,
            ) == spec_group(installed@, r@[g].0@),
        forall|j: int|
            0 <= j < installed@.len() ==> groups_contain(
                r@,
                (#[trigger] installed@[j]).network_release,
            ),
{
    let records = installed.binaries();
    let mut keys: Vec<String> = Vec::new();
    let n = records.len();
    let mut i: usize = 0;
    while i < n
        invariant
            i <= n,
            n == records@.len(),
            records@.len() == installed@.len(),
            forall|j: int| 0 <= j < records@.len() ==> records@[j]@ == installed@[j],
            keys_sorted(keys.deep_view()),
            forall|j: int|
                0 <= j < i ==> keys_contain(
                    keys.deep_view(),
                    (#[trigger] installed@[j]).network_release,
                ),
        decreases n - i,
    {
        insert_sorted_unique(&mut keys, records[i].network_release.as_str());
        proof {
            assert(records@[i as int]@.network_release == installed@[i as int].network_release);
        }
        i = i + 1;
    }
    let mut out: Vec<(String, Vec<BinaryVersion>)> = Vec::new();
    let mut g: usize = 0;
    while g < keys.len()
        invariant
            g <= keys@.len(),
            keys_sorted(keys.deep_view()),
            forall|j: int|
                0 <= j < installed@.len() ==> keys_contain(
                    keys.deep_view(),
                    (#[trigger] installed@[j]).network_release,
                ),
            out@.len() == g,
            forall|p: int| 0 <= p < g ==> (#[trigger] out@[p]).0@ == keys.deep_view()[p],
            forall|p: int|
                0 <= p < g ==> Seq::new(
                    (#[trigger] out@[p]).1@.len(),
                    |k: int| out@[p].1@[k]@,
                ) == spec_group(installed@, out@[p].0@),
        decreases keys@.len() - g,
    {
        let group = collect_group(installed, keys[g].as_str());
        out.push((keys[g].clone(), group));
        g = g + 1;
    }
    proof {
        assert forall|j: int| 0 <= j < installed@.len() implies groups_contain(
            out@,
            (#[trigger] installed@[j]).network_release,
        ) by {
            assert(keys_contain(keys.deep_view(), installed@[j].network_release));
            let k = choose|k: int|
                0 <= k < keys.deep_view().len() && keys.deep_view()[k] == installed@[
                    j
                ].network_release;
            assert(0 <= k < out@.len());
            assert(out@[k].0@ == keys.deep_view()[k]);
            assert(out@[k].0@ == installed@[j].network_release);
        }
    }
    out
}

/// The defaults map as display rows: one row per promoted binary, in
/// map order, with no recorded path.
pub fn load_default_binaries(map: &DefaultBinaries) -> (r: Binaries)
    ensures
        r.binaries@.len() == map@.len(),
        forall|i: int|
            0 <= i < map@.len() ==> {
                let b = #[trigger] r.binaries@[i]@;
                &&& b.binary_name == map@[i].binary_name
                &&& b.network_release == map@[i].network
                &&& b.version == map@[i].version
                &&& b.debug == map@[i].debug
                &&& b.path is None
            },
{
    let entries = map.entries();
    let mut rows: Vec<BinaryVersion> = Vec::new();
    let mut i: usize = 0;
    while i < entries.len()
        invariant
            i <= entries@.len(),
            entries@.len() == map@.len(),
            forall|j: int| 0 <= j < entries@.len() ==> entries@[j]@ == map@[j],
            rows@.len() == i,
            forall|j: int|
                0 <= j < i ==> {
                    let b = #[trigger] rows@[j]@;
                    &&& b.binary_name == map@[j].binary_name
                    &&& b.network_release == map@[j].network
                    &&& b.version == map@[j].version
                    &&& b.debug == map@[j].debug
                    &&& b.path is None
                },
        decreases entries@.len() - i,
    {
        let e = &entries[i];
        rows.push(
            BinaryVersion {
                binary_name: e.binary_name.clone(),
                network_release: e.network.clone(),
                version: e.version.clone(),
                debug: e.debug,
                path: None,
            },
        );
        i = i + 1;
    }
    Binaries { binaries: rows }
}

/// Load installed binaries: every record of the ledger, in ledger
/// order.
pub fn load_installed_binaries(installed: &InstalledBinaries) -> (r: Vec<BinaryVersion>)
    ensures
        r@.len() == installed@.len(),
        forall|i: int| 0 <= i < r@.len() ==> (#[trigger] r@[i])@ == installed@[i],
{
    let records = installed.binaries();
    let mut out: Vec<BinaryVersion> = Vec::new();
    let mut i: usize = 0;
    while i < records.len()
        invariant
            i <= records@.len(),
            records@.len() == installed@.len(),
            forall|j: int| 0 <= j < records@.len() ==> records@[j]@ == installed@[j],
            out@.len() == i,
            forall|j: int| 0 <= j < i ==> (#[trigger] out@[j])@ == installed@[j],
        decreases records@.len() - i,
    {
        out.push(records[i].duplicate());
        i = i + 1;
    }
    out
}

/// What the `show` command displays: the promoted defaults, and —
/// unless only defaults were asked for — every installed binary.
pub fn handle_show(
    default_only: bool,
    defaults: &DefaultBinaries,
    installed: &InstalledBinaries,
) -> (r: (Binaries, Option<Vec<BinaryVersion>>))
    ensures
        r.0.binaries@.len() == defaults@.len(),
        forall|i: int|
            0 <= i < defaults@.len() ==> {
                let b = (#[trigger] r.0.binaries@[i])@;
                &&& b.binary_name == defaults@[i].binary_name
                &&& b.network_release == defaults@[i].network
                &&& b.version == defaults@[i].version
                &&& b.debug == defaults@[i].debug
            },
        default_only <==> r.1 is None,
        r.1 is Some ==> r.1->Some_0@.len() == installed@.len() && forall|i: int|
            0 <= i < installed@.len() ==> (#[trigger] r.1->Some_0@[i])@ == installed@[i],
{
    let default_rows = load_default_binaries(defaults);
    if default_only {
        (default_rows, None)
    } else {
        let rows = load_installed_binaries(installed);
        (default_rows, Some(rows))
    }
}

} // verus!
