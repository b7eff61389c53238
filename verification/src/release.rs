use vstd::prelude::*;
use crate::errors::UpdateError;
use crate::text::{starts_with, ends_with, trim_spec, str_starts_with, str_ends_with, trim};

verus! {

/// A downloadable file attached to a release: its filename and its direct
/// download location.
pub struct CatalogAsset {
    pub name: String,
    pub url: String,
}

/// One release as the catalog lists it: an optional human-readable name and
/// its assets, in catalog order.
pub struct CatalogRelease {
    pub name: Option<String>,
    pub assets: Vec<CatalogAsset>,
}

/// The resolved release: a trimmed version label and the download location
/// of the matching asset.
#[derive(Debug)]
pub struct ResolvedRelease {
    pub name: String,
    pub url: String,
}

/// The mathematical model of an asset.
pub ghost struct AssetV {
    pub name: Seq<char>,
    pub url: Seq<char>,
}

/// The mathematical model of a catalog release.
pub ghost struct ReleaseV {
    pub name: Option<Seq<char>>,
    pub assets: Seq<AssetV>,
}

/// The mathematical model of a resolved release.
pub ghost struct ResolvedV {
    pub name: Seq<char>,
    pub url: Seq<char>,
}

impl DeepView for CatalogAsset {
    type V = AssetV;

    open spec fn deep_view(&self) -> AssetV {
        AssetV { name: self.name@, url: self.url@ }
    }
}

impl DeepView for CatalogRelease {
    type V = ReleaseV;

    open spec fn deep_view(&self) -> ReleaseV {
        ReleaseV { name: self.name.deep_view(), assets: self.assets.deep_view() }
    }
}

impl DeepView for ResolvedRelease {
    type V = ResolvedV;

    open spec fn deep_view(&self) -> ResolvedV {
        ResolvedV { name: self.name@, url: self.url@ }
    }
}

/// The first asset, in catalog order, whose filename ends with `suffix`.
pub open spec fn first_matching_asset(assets: Seq<AssetV>, suffix: Seq<char>) -> Option<AssetV>
    decreases assets.len(),
{
    if assets.len() == 0 {
        None
    } else if ends_with(assets[0].name, suffix) {
        Some(assets[0])
    } else {
        first_matching_asset(assets.drop_first(), suffix)
    }
}

/// A release qualifies when it has a name and the name starts with the
/// literal prefix `"Release"`.
pub open spec fn release_qualifies(r: ReleaseV) -> bool {
    r.name is Some && starts_with(r.name->0, "Release"@)
}

/// The selection rule over a catalog page: walk the releases in catalog
/// order, skip those that do not qualify and those without a matching
/// asset, and resolve the first (release, asset) pair found.  The resolved
/// name is the release name with white space trimmed at both ends.
pub open spec fn select_spec(rels: Seq<ReleaseV>, suffix: Seq<char>) -> Option<ResolvedV>
    decreases rels.len(),
{
    if rels.len() == 0 {
        None
    } else {
        let r = rels[0];
        if release_qualifies(r) && first_matching_asset(r.assets, suffix) is Some {
            Some(
                ResolvedV {
                    name: trim_spec(r.name->0),
                    url: first_matching_asset(r.assets, suffix)->0.url,
                },
            )
        } else {
            select_spec(rels.drop_first(), suffix)
        }
    }
}

/// The asset scan finds exactly the first match.
proof fn lemma_first_asset_at(av: Seq<AssetV>, suffix: Seq<char>, j: int)
    requires
        0 <= j < av.len(),
        forall|k: int| 0 <= k < j ==> !ends_with(av[k].name, suffix),
        ends_with(av[j].name, suffix),
    ensures
        first_matching_asset(av, suffix) == Some(av[j]),
    decreases j,
{
    if j > 0 {
        lemma_first_asset_at(av.drop_first(), suffix, j - 1);
    }
}

/// A scan that matches nothing yields no asset.
proof fn lemma_first_asset_none(av: Seq<AssetV>, suffix: Seq<char>)
    requires
        forall|k: int| 0 <= k < av.len() ==> !ends_with(av[k].name, suffix),
    ensures
        first_matching_asset(av, suffix) is None,
    decreases av.len(),
{
    if av.len() > 0 {
        lemma_first_asset_none(av.drop_first(), suffix);
    }
}

/// Resolve the newest matching release out of a catalog page.
///
/// Walks `releases` in the order given (the catalog's own, newest first),
/// skips any release whose name does not start with `"Release"`, and for a
/// qualifying release selects its first asset whose filename ends with
/// `suffix`.  Returns the first pair found, with the release name trimmed,
/// or `ReleaseNotFound` after exhausting the page.
pub fn resolve_release(releases: &Vec<CatalogRelease>, suffix: &str) -> (r: Result<
    ResolvedRelease,
    UpdateError,
>)
    ensures
        (match select_spec(releases.deep_view(), suffix@) {
            Some(rv) => r matches Ok(res) && res.deep_view() == rv,
            None => r == Err::<ResolvedRelease, UpdateError>(UpdateError::ReleaseNotFound),
        }),
{
    let ghost rv = releases.deep_view();
    let n = releases.len();
    proof {
        assert(rv.subrange(0, n as int) =~= rv);
    }
    let mut i: usize = 0;
    while i < n
        invariant
            i <= n,
            n == releases@.len(),
            rv == releases.deep_view(),
            select_spec(rv, suffix@) == select_spec(rv.subrange(i as int, n as int), suffix@),
        decreases n - i,
    {
        proof {
            assert(rv[i as int] == releases@[i as int].deep_view());
        }
        let rel = &releases[i];
        let qualifies = match &rel.name {
            Some(nm) => str_starts_with(nm.as_str(), "Release"),
            None => false,
        };
        if qualifies {
            let ghost av = rel.assets.deep_view();
            let m = rel.assets.len();
            let mut j: usize = 0;
            while j < m
                invariant
                    j <= m,
                    i < n,
                    n == releases@.len(),
                    rv == releases.deep_view(),
                    select_spec(rv, suffix@) == select_spec(
                        rv.subrange(i as int, n as int),
                        suffix@,
                    ),
                    rel == &releases[i as int],
                    rel.deep_view() == rv[i as int],
                    release_qualifies(rv[i as int]),
                    m == rel.assets@.len(),
                    av == rel.assets.deep_view(),
                    forall|k: int| 0 <= k < j ==> !ends_with(av[k].name, suffix@),
                decreases m - j,
            {
                proof {
                    assert(av[j as int] == rel.assets@[j as int].deep_view());
                }
                let asset = &rel.assets[j];
                if str_ends_with(asset.name.as_str(), suffix) {
                    let nm = match &rel.name {
                        Some(nm) => nm,
                        None => unreached(),
                    };
                    let resolved = ResolvedRelease {
                        name: trim(nm.as_str()),
                        url: asset.url.clone(),
                    };
                    proof {
                        lemma_first_asset_at(av, suffix@, j as int);
                        assert(rv.subrange(i as int, n as int)[0] == rv[i as int]);
                        assert(release_qualifies(rv[i as int]));
                        assert(select_spec(rv.subrange(i as int, n as int), suffix@) == Some(
                            resolved.deep_view(),
                        ));
                    }
                    return Ok(resolved);
                }
                j += 1;
            }
            proof {
                lemma_first_asset_none(av, suffix@);
            }
        }
        proof {
            assert(rv.subrange(i as int, n as int)[0] == rv[i as int]);
            assert(rv.subrange(i as int, n as int).drop_first() =~= rv.subrange(
                i + 1,
                n as int,
            ));
        }
        i += 1;
    }
    proof {
        assert(rv.subrange(n as int, n as int).len() == 0);
    }
    Err(UpdateError::ReleaseNotFound)
}

} // verus!
