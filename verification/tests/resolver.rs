use updater::errors::UpdateError;
use updater::release::{resolve_release, CatalogAsset, CatalogRelease};

fn asset(name: &str, url: &str) -> CatalogAsset {
    CatalogAsset { name: name.to_string(), url: url.to_string() }
}

fn release(name: Option<&str>, assets: Vec<CatalogAsset>) -> CatalogRelease {
    CatalogRelease { name: name.map(|s| s.to_string()), assets }
}

#[test]
fn first_match_wins_over_later_releases() {
    let catalog = vec![
        release(Some("Release v2"), vec![asset("app.zip", "https://dl/v2/app.zip")]),
        release(Some("Draft v3"), vec![asset("draft.zip", "https://dl/v3/draft.zip")]),
        release(Some("Release v1"), vec![asset("old.zip", "https://dl/v1/old.zip")]),
    ];
    let r = resolve_release(&catalog, ".zip").unwrap();
    assert_eq!(r.name, "Release v2");
    assert_eq!(r.url, "https://dl/v2/app.zip");
}

#[test]
fn non_release_names_are_skipped() {
    let catalog = vec![
        release(Some("Draft v3"), vec![asset("draft.zip", "https://dl/v3/draft.zip")]),
        release(Some("Nightly"), vec![asset("n.zip", "https://dl/n/n.zip")]),
        release(Some("Release v1"), vec![asset("old.zip", "https://dl/v1/old.zip")]),
    ];
    let r = resolve_release(&catalog, ".zip").unwrap();
    assert_eq!(r.name, "Release v1");
    assert_eq!(r.url, "https://dl/v1/old.zip");
}

#[test]
fn unnamed_releases_are_skipped() {
    let catalog = vec![
        release(None, vec![asset("a.zip", "https://dl/a.zip")]),
        release(Some("Release v7"), vec![asset("b.zip", "https://dl/b.zip")]),
    ];
    let r = resolve_release(&catalog, ".zip").unwrap();
    assert_eq!(r.name, "Release v7");
}

#[test]
fn first_matching_asset_of_the_release_is_taken() {
    let catalog = vec![release(
        Some("Release v5"),
        vec![
            asset("notes.txt", "https://dl/notes.txt"),
            asset("app-linux-amd64.zip", "https://dl/app-linux-amd64.zip"),
            asset("later-linux-amd64.zip", "https://dl/later.zip"),
        ],
    )];
    let r = resolve_release(&catalog, "-linux-amd64.zip").unwrap();
    assert_eq!(r.url, "https://dl/app-linux-amd64.zip");
}

#[test]
fn release_without_matching_asset_falls_through() {
    let catalog = vec![
        release(Some("Release v2"), vec![asset("only-sources.tar", "https://dl/v2/s.tar")]),
        release(Some("Release v1"), vec![asset("app.zip", "https://dl/v1/app.zip")]),
    ];
    let r = resolve_release(&catalog, ".zip").unwrap();
    assert_eq!(r.name, "Release v1");
    assert_eq!(r.url, "https://dl/v1/app.zip");
}

#[test]
fn resolved_name_is_trimmed() {
    let catalog = vec![release(
        Some("Release v1.2.3 \n"),
        vec![asset("app.zip", "https://dl/app.zip")],
    )];
    let r = resolve_release(&catalog, ".zip").unwrap();
    assert_eq!(r.name, "Release v1.2.3");
}

#[test]
fn leading_white_space_disqualifies_a_name() {
    let catalog = vec![
        release(Some(" Release v2"), vec![asset("a.zip", "https://dl/a.zip")]),
        release(Some("Release v1"), vec![asset("b.zip", "https://dl/b.zip")]),
    ];
    let r = resolve_release(&catalog, ".zip").unwrap();
    assert_eq!(r.name, "Release v1");
    assert_eq!(r.url, "https://dl/b.zip");
}

#[test]
fn empty_catalog_reports_no_release_found() {
    let catalog: Vec<CatalogRelease> = Vec::new();
    let e = resolve_release(&catalog, ".zip").unwrap_err();
    assert_eq!(e, UpdateError::ReleaseNotFound);
    assert_eq!(e.message(), "No Release Found");
}

#[test]
fn no_qualifying_pair_reports_no_release_found() {
    let catalog = vec![
        release(Some("Draft v3"), vec![asset("a.zip", "https://dl/a.zip")]),
        release(Some("Release v2"), vec![asset("b.tar", "https://dl/b.tar")]),
    ];
    assert!(matches!(resolve_release(&catalog, ".zip"), Err(UpdateError::ReleaseNotFound)));
}
