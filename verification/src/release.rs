//! The release catalog: selecting releases by channel, finding the
//! channels that carry a version, and the conditionally refreshed
//! on-disk cache of the upstream release list.

use vstd::prelude::*;

use crate::errors::SuiupError;
use crate::json::{releases_from_text, releases_to_text, releases_view, ser_releases,
    spec_releases_doc, lemma_releases_round_trip};
use crate::strutil::{contains_str, push_char, spec_contains};
use crate::types::{Release, ReleaseView, Repo, spec_repo_identity};
use crate::version::{extract_version_from_release, spec_extract_version};

verus! {

/// Some asset of the release mentions the token in its name.
pub open spec fn release_mentions(r: ReleaseView, token: Seq<char>) -> bool {
    exists|j: int| 0 <= j < r.assets.len() && spec_contains(r.assets[j].name, token)
}

/// Whether some asset of the release mentions the token.
pub fn release_mentions_token(r: &Release, token: &str) -> (res: bool)
    ensures
        res == release_mentions(r@, token@),
{
    let mut j: usize = 0;
    while j < r.assets.len()
        invariant
            j <= r.assets@.len(),
            r@.assets.len() == r.assets@.len(),
            forall|k: int| 0 <= k < r@.assets.len() ==> r@.assets[k] == r.assets@[k]@,
            forall|k: int| 0 <= k < j ==> !spec_contains(r@.assets[k].name, token@),
        decreases r.assets@.len() - j,
    {
        if contains_str(r.assets[j].name.as_str(), token) {
            proof {
                assert(spec_contains(r@.assets[j as int].name, token@));
            }
            return true;
        }
        j = j + 1;
    }
    false
}

impl crate::types::Asset {
    /// A copy of the asset, field by field.
    pub fn duplicate(&self) -> (r: crate::types::Asset)
        ensures
            r@ == self@,
    {
        crate::types::Asset {
            browser_download_url: self.browser_download_url.clone(),
            name: self.name.clone(),
        }
    }
}

impl Release {
    /// A copy of the release, asset by asset.
    pub fn duplicate(&self) -> (r: Release)
        ensures
            r@ == self@,
    {
        let mut assets: Vec<crate::types::Asset> = Vec::new();
        let mut i: usize = 0;
        while i < self.assets.len()
            invariant
                i <= self.assets@.len(),
                assets@.len() == i,
                forall|k: int| 0 <= k < i ==> assets@[k]@ == self.assets@[k]@,
            decreases self.assets@.len() - i,
        {
            assets.push(self.assets[i].duplicate());
            i = i + 1;
        }
        let r = Release { assets };
        proof {
            assert(r@.assets =~= self@.assets);
        }
        r
    }
}

/// Finds the first release in catalog order whose assets mention the
/// channel; catalog order is newest first, so this is the latest.
pub fn find_last_release_by_network(releases: &Vec<Release>, network: &str) -> (r: Option<Release>)
    ensures
        match r {
            Some(rel) => exists|i: int|
                0 <= i < releases@.len() && rel@ == #[trigger] releases@[i]@ && release_mentions(
                    releases@[i]@,
                    network@,
                ) && forall|j: int| 0 <= j < i ==> !release_mentions(releases@[j]@, network@),
            None => forall|j: int|
                0 <= j < releases@.len() ==> !release_mentions(#[trigger] releases@[j]@, network@),
        },
{
    let mut i: usize = 0;
    while i < releases.len()
        invariant
            i <= releases@.len(),
            forall|j: int| 0 <= j < i ==> !release_mentions(#[trigger] releases@[j]@, network@),
        decreases releases@.len() - i,
    {
        if release_mentions_token(&releases[i], network) {
            let rel = releases[i].duplicate();
            proof {
                assert(rel@ == releases@[i as int]@ && release_mentions(
                    releases@[i as int]@,
                    network@,
                ));
            }
            return Some(rel);
        }
        i = i + 1;
    }
    None
}

/// The latest release version available for a channel: the version
/// embedded in the first asset name of the latest release mentioning
/// the channel. Fails when no release mentions the channel, or when
/// that asset name carries no version.
pub fn last_release_for_network(releases: &Vec<Release>, network: &str) -> (r: Result<
    (String, String),
    SuiupError,
>)
    ensures
        match r {
            Ok((net, ver)) => net@ == network@ && exists|i: int|
                0 <= i < releases@.len() && release_mentions(#[trigger] releases@[i]@, network@)
                    && (forall|j: int|
                    0 <= j < i ==> !release_mentions(releases@[j]@, network@)) && releases@[i]@
                    .assets.len() > 0 && spec_extract_version(releases@[i]@.assets[0].name)
                    == Some(ver@),
            Err(e) => (e@ == crate::errors::ErrorView::NoReleaseForNetwork(network@) && forall|
                j: int,
            |
                0 <= j < releases@.len() ==> !release_mentions(#[trigger] releases@[j]@, network@))
                || (e@ == crate::errors::ErrorView::NoVersionInRelease && exists|i: int|
                0 <= i < releases@.len() && release_mentions(#[trigger] releases@[i]@, network@)
                    && (forall|j: int|
                    0 <= j < i ==> !release_mentions(releases@[j]@, network@)) && releases@[i]@
                    .assets.len() > 0 && spec_extract_version(releases@[i]@.assets[0].name)
                    is None),
        },
{
    match find_last_release_by_network(releases, network) {
        Some(rel) => {
            proof {
                assert(release_mentions(rel@, network@));
                assert(rel@.assets.len() > 0);
                assert(rel@.assets.len() == rel.assets@.len());
            }
            match extract_version_from_release(rel.assets[0].name.as_str()) {
                Ok(ver) => {
                    proof {
                        assert(rel@.assets[0] == rel.assets@[0]@);
                    }
                    Ok((String::from_str(network), ver))
                },
                Err(e) => {
                    proof {
                        assert(e@ == crate::errors::ErrorView::NoVersionInRelease);
                        assert(rel@.assets[0] == rel.assets@[0]@);
                    }
                    Err(e)
                },
            }
        },
        None => Err(SuiupError::NoReleaseForNetwork(String::from_str(network))),
    }
}

/// Some release in the catalog mentions the token.
pub open spec fn catalog_mentions(rs: Seq<ReleaseView>, token: Seq<char>) -> bool {
    exists|i: int| 0 <= i < rs.len() && release_mentions(rs[i], token)
}

/// Whether some release in the catalog mentions the token.
pub fn catalog_mentions_token(releases: &Vec<Release>, token: &str) -> (r: bool)
    ensures
        r == catalog_mentions(releases_view(releases@), token@),
{
    let mut i: usize = 0;
    while i < releases.len()
        invariant
            i <= releases@.len(),
            forall|j: int|
                0 <= j < i ==> !release_mentions(#[trigger] releases_view(releases@)[j], token@),
        decreases releases@.len() - i,
    {
        if release_mentions_token(&releases[i], token) {
            proof {
                assert(release_mentions(releases_view(releases@)[i as int], token@));
            }
            return true;
        }
        i = i + 1;
    }
    false
}

/// The channel-and-version token a release asset carries, such as the
/// channel name, a hyphen, and the `v`-prefixed version.
pub open spec fn spec_tag(net: Seq<char>, version: Seq<char>) -> Seq<char> {
    net + "-"@ + version
}

/// The tag for a channel and version, written `channel-version`.
pub fn make_tag(net: &str, version: &str) -> (r: String)
    ensures
        r@ == spec_tag(net@, version@),
{
    let mut s = String::from_str(net);
    s.append("-");
    s.append(version);
    proof {
        assert(s@ =~= spec_tag(net@, version@));
    }
    s
}

/// Adds the `v` prefix that upstream release tags carry, if missing.
pub fn ensure_version_prefix(version: &str) -> (r: String)
    ensures
        r@ == spec_ensure_version_prefix(version@),
{
    if version.unicode_len() > 0 && version.get_char(0) == 'v' {
        version.to_owned()
    } else {
        let mut s = String::new();
        s.append("v");
        s.append(version);
        proof {
            reveal_strlit("v");
            assert(s@ =~= seq!['v'] + version@);
        }
        s
    }
}

/// The version string as it appears in upstream release tags: with a
/// leading `v`, added when the caller left it off.
pub open spec fn spec_ensure_version_prefix(v: Seq<char>) -> Seq<char> {
    if v.len() > 0 && v[0] == 'v' {
        v
    } else {
        seq!['v'] + v
    }
}

/// The channels that carry the version: each of the fixed channels
/// whose tag some release mentions, in the fixed channel order.
pub open spec fn spec_networks_with_version(rs: Seq<ReleaseView>, version: Seq<char>) -> Seq<
    Seq<char>,
> {
    let vp = spec_ensure_version_prefix(version);
    let a: Seq<Seq<char>> = if catalog_mentions(rs, spec_tag("testnet"@, vp)) {
        seq!["testnet"@]
    } else {
        Seq::empty()
    };
    let b: Seq<Seq<char>> = if catalog_mentions(rs, spec_tag("devnet"@, vp)) {
        seq!["devnet"@]
    } else {
        Seq::empty()
    };
    let c: Seq<Seq<char>> = if catalog_mentions(rs, spec_tag("mainnet"@, vp)) {
        seq!["mainnet"@]
    } else {
        Seq::empty()
    };
    a + b + c
}

/// Find all networks that have a specific version available.
pub fn find_networks_with_version(releases: &Vec<Release>, version: &str) -> (r: Vec<String>)
    ensures
        r.deep_view() == spec_networks_with_version(releases_view(releases@), version@),
{
    let vp = ensure_version_prefix(version);
    let mut out: Vec<String> = Vec::new();
    let tag_t = make_tag("testnet", vp.as_str());
    if catalog_mentions_token(releases, tag_t.as_str()) {
        out.push(String::from_str("testnet"));
    }
    let tag_d = make_tag("devnet", vp.as_str());
    if catalog_mentions_token(releases, tag_d.as_str()) {
        out.push(String::from_str("devnet"));
    }
    let tag_m = make_tag("mainnet", vp.as_str());
    if catalog_mentions_token(releases, tag_m.as_str()) {
        out.push(String::from_str("mainnet"));
    }
    proof {
        assert(out.deep_view() =~= spec_networks_with_version(
            releases_view(releases@),
            version@,
        ));
    }
    out
}

/// The repository identity with each slash replaced by an underscore,
/// as used in cache file names.
pub open spec fn spec_underscored(s: Seq<char>) -> Seq<char> {
    s.map_values(
        |c: char|
            if c == '/' {
                '_'
            } else {
                c
            },
    )
}

fn underscored(s: &str) -> (r: String)
    ensures
        r@ == spec_underscored(s@),
{
    let n = s.unicode_len();
    let mut out = String::new();
    let mut i: usize = 0;
    while i < n
        invariant
            i <= n,
            n == s@.len(),
            out@ =~= spec_underscored(s@.take(i as int)),
        decreases n - i,
    {
        let c = s.get_char(i);
        if c == '/' {
            push_char(&mut out, '_');
        } else {
            push_char(&mut out, c);
        }
        proof {
            assert(s@.take(i + 1) =~= s@.take(i as int).push(s@[i as int]));
            assert(out@ =~= spec_underscored(s@.take(i + 1)));
        }
        i = i + 1;
    }
    proof {
        assert(s@.take(n as int) =~= s@);
    }
    out
}

/// The cache file holding the last-seen validity token for a source.
pub fn etag_filename(repo: &Repo) -> (r: String)
    ensures
        r@ == "etag_"@ + spec_underscored(spec_repo_identity(*repo)) + ".txt"@,
{
    let ident = repo.to_display_string();
    let under = underscored(ident.as_str());
    let mut s = String::from_str("etag_");
    s.append(under.as_str());
    s.append(".txt");
    proof {
        assert(s@ =~= "etag_"@ + spec_underscored(spec_repo_identity(*repo)) + ".txt"@);
    }
    s
}

/// The cache file holding the release list for a source.
pub fn releases_filename(repo: &Repo) -> (r: String)
    ensures
        r@ == "releases_"@ + spec_underscored(spec_repo_identity(*repo)) + ".txt"@,
{
    let ident = repo.to_display_string();
    let under = underscored(ident.as_str());
    let mut s = String::from_str("releases_");
    s.append(under.as_str());
    s.append(".txt");
    proof {
        assert(s@ =~= "releases_"@ + spec_underscored(spec_repo_identity(*repo)) + ".txt"@);
    }
    s
}

/// Reads the cached release list: the cached releases and the token,
/// present only when both cache files were present; a cache file that
/// does not decode is an error, never an empty catalog.
pub fn load_cached_release_list(cache_text: Option<&String>, etag_text: Option<&String>) -> (r:
    Result<Option<(Vec<Release>, String)>, SuiupError>)
    ensures
        match r {
            Ok(Some((rels, etag))) => cache_text is Some && etag_text is Some && spec_releases_doc(
                cache_text->Some_0@,
            ) == Some(releases_view(rels@)) && etag@ == etag_text->Some_0@,
            Ok(None) => cache_text is None || etag_text is None,
            Err(e) => cache_text is Some && etag_text is Some && spec_releases_doc(
                cache_text->Some_0@,
            ) is None && e@ == crate::errors::ErrorView::CorruptReleaseCache,
        },
{
    match (cache_text, etag_text) {
        (Some(text), Some(etag)) => {
            match releases_from_text(text.as_str()) {
                Ok(rels) => Ok(Some((rels, etag.clone()))),
                Err(e) => Err(e),
            }
        },
        _ => Ok(None),
    }
}

/// What one conditional catalog fetch produced: either the upstream
/// reported no change, or it sent a full list and possibly a new
/// validity token.
pub enum FetchOutcome {
    NotModified,
    Fetched { releases: Vec<Release>, etag: Option<String> },
}

/// Decides what a catalog lookup returns and what is written back to
/// the cache. On `NotModified` the cached list is returned unchanged
/// and nothing is written; a missing or corrupt cache is then an
/// error. On a full fetch the fetched list is authoritative and its
/// canonical text is written back.
pub fn catalog_refresh(
    outcome: FetchOutcome,
    cache_text: Option<&String>,
    etag_text: Option<&String>,
) -> (r: Result<(Vec<Release>, Option<String>, Option<String>), SuiupError>)
    ensures
        match r {
            Ok((rels, etag, persist)) => match outcome {
                FetchOutcome::NotModified => cache_text is Some && etag_text is Some
                    && spec_releases_doc(cache_text->Some_0@) == Some(releases_view(rels@)) && etag
                    is Some && etag->Some_0@ == etag_text->Some_0@ && persist is None,
                FetchOutcome::Fetched { releases, etag: new_etag } => rels@ == releases@ && etag
                    == new_etag && persist is Some && persist->Some_0@ == ser_releases(
                    releases_view(releases@),
                ),
            },
            Err(e) => outcome is NotModified && (cache_text is None || etag_text is None
                || spec_releases_doc(cache_text->Some_0@) is None),
        },
{
    match outcome {
        FetchOutcome::NotModified => {
            match load_cached_release_list(cache_text, etag_text) {
                Ok(Some((rels, etag))) => Ok((rels, Some(etag), None)),
                Ok(None) => Err(SuiupError::NotModifiedWithoutCache),
                Err(e) => Err(e),
            }
        },
        FetchOutcome::Fetched { releases, etag } => {
            let text = releases_to_text(&releases);
            Ok((releases, etag, Some(text)))
        },
    }
}

/// Cache correctness: a catalog written to the cache reads back as
/// exactly the releases that were written — so a second lookup against
/// an unchanged upstream, which `catalog_refresh` answers from the
/// cached text without a new transfer, yields the same release data,
/// and re-writing what was read reproduces the cached text byte for
/// byte.
pub proof fn lemma_catalog_cache_correct(rs: Seq<ReleaseView>)
    ensures
        spec_releases_doc(ser_releases(rs)) == Some(rs),
        ser_releases(spec_releases_doc(ser_releases(rs))->Some_0) == ser_releases(rs),
{
    lemma_releases_round_trip(rs);
}

} // verus!
