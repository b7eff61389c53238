use updater::errors::UpdateError;
use updater::paths::sanitize_entry_path;
use updater::plan::{build_install_plan, ArchiveEntry, InstallAction};
use updater::release::{resolve_release, CatalogAsset, CatalogRelease, ResolvedRelease};
use updater::version::{decide_update, installed_version, UpdateDecision, VersionReadOutcome};

fn entry(name: &str, data: &[u8], unix_mode: Option<u32>) -> ArchiveEntry {
    ArchiveEntry { name: name.to_string(), data: data.to_vec(), unix_mode }
}

#[test]
fn missing_marker_reads_as_empty_version() {
    let v = installed_version(VersionReadOutcome::Missing).unwrap();
    assert_eq!(v, "");
}

#[test]
fn marker_contents_pass_through_unchanged() {
    let v = installed_version(VersionReadOutcome::Found("Release v1\n".to_string())).unwrap();
    assert_eq!(v, "Release v1\n");
}

#[test]
fn unreadable_marker_is_fatal() {
    let e = installed_version(VersionReadOutcome::Failed).unwrap_err();
    assert_eq!(e, UpdateError::VersionReadFailure);
    assert_eq!(e.message(), "version marker unreadable");
}

#[test]
fn equal_versions_take_the_no_op_path() {
    let resolved = ResolvedRelease {
        name: "Release v1".to_string(),
        url: "https://dl/app.zip".to_string(),
    };
    let d = decide_update(&"Release v1".to_string(), resolved);
    assert!(matches!(d, UpdateDecision::UpToDate));
}

#[test]
fn differing_versions_upgrade_to_the_resolved_release() {
    let resolved = ResolvedRelease {
        name: "Release v2".to_string(),
        url: "https://dl/v2.zip".to_string(),
    };
    match decide_update(&"Release v1".to_string(), resolved) {
        UpdateDecision::Upgrade(r) => {
            assert_eq!(r.name, "Release v2");
            assert_eq!(r.url, "https://dl/v2.zip");
        },
        UpdateDecision::UpToDate => panic!("an update was owed"),
    }
}

#[test]
fn traversal_entry_is_skipped() {
    let entries = vec![entry("../../etc/passwd", b"oops", None)];
    let plan = build_install_plan(&entries, &"Release v1".to_string());
    assert_eq!(plan.len(), 3);
    assert!(matches!(&plan[0], InstallAction::WriteVersionMarker { .. }));
    assert!(matches!(&plan[1], InstallAction::RemoveLive));
    assert!(matches!(&plan[2], InstallAction::PromoteStaging));
}

#[test]
fn sanitizer_accepts_contained_names_only() {
    assert_eq!(sanitize_entry_path("../../etc/passwd"), None);
    assert_eq!(sanitize_entry_path("/etc/passwd"), None);
    assert_eq!(sanitize_entry_path("a/../../b"), None);
    assert_eq!(sanitize_entry_path("a\\..\\..\\b"), None);
    assert_eq!(sanitize_entry_path("a\0b"), None);
    assert_eq!(
        sanitize_entry_path("a/../b.txt"),
        Some(vec!["b.txt".to_string()])
    );
    assert_eq!(
        sanitize_entry_path("./a/./b"),
        Some(vec!["a".to_string(), "b".to_string()])
    );
    assert_eq!(
        sanitize_entry_path("a//b"),
        Some(vec!["a".to_string(), "b".to_string()])
    );
    assert_eq!(sanitize_entry_path("dir/"), Some(vec!["dir".to_string()]));
    assert_eq!(sanitize_entry_path(""), Some(Vec::new()));
    assert_eq!(sanitize_entry_path("."), Some(Vec::new()));
}

#[test]
fn only_a_trailing_slash_marks_a_directory() {
    let entries = vec![entry("dir\\", b"x", None)];
    let plan = build_install_plan(&entries, &"Release v1".to_string());
    assert_eq!(plan.len(), 4);
    match &plan[0] {
        InstallAction::WriteFile { path, data } => {
            assert_eq!(path, &vec!["dir".to_string()]);
            assert_eq!(data, b"x");
        },
        _ => panic!("a backslash-terminated name is a file entry"),
    }
}

#[test]
fn plan_touches_staging_only_until_the_swap() {
    let entries = vec![
        entry("dir/", b"", None),
        entry("dir/app", b"\x7fELF", Some(0o100755)),
        entry("../escape", b"x", None),
        entry("docs/readme.txt", b"hi", None),
    ];
    let plan = build_install_plan(&entries, &"Release v9".to_string());
    let n = plan.len();
    assert!(n >= 3);
    for a in plan.iter().take(n - 2) {
        assert!(matches!(
            a,
            InstallAction::MakeDir { .. }
                | InstallAction::WriteFile { .. }
                | InstallAction::SetMode { .. }
                | InstallAction::WriteVersionMarker { .. }
        ));
    }
    match &plan[n - 3] {
        InstallAction::WriteVersionMarker { name } => assert_eq!(name, "Release v9"),
        _ => panic!("the marker is stamped into staging before the swap"),
    }
    assert!(matches!(&plan[n - 2], InstallAction::RemoveLive));
    assert!(matches!(&plan[n - 1], InstallAction::PromoteStaging));
}

#[test]
fn directory_file_and_mode_entries_become_their_actions() {
    let entries = vec![
        entry("dir/", b"", None),
        entry("dir/app", b"bytes", Some(0o100755)),
    ];
    let plan = build_install_plan(&entries, &"Release v1".to_string());
    assert_eq!(plan.len(), 6);
    match &plan[0] {
        InstallAction::MakeDir { path } => assert_eq!(path, &vec!["dir".to_string()]),
        _ => panic!("a directory entry creates a directory"),
    }
    match &plan[1] {
        InstallAction::WriteFile { path, data } => {
            assert_eq!(path, &vec!["dir".to_string(), "app".to_string()]);
            assert_eq!(data, b"bytes");
        },
        _ => panic!("a file entry writes its bytes verbatim"),
    }
    match &plan[2] {
        InstallAction::SetMode { path, mode } => {
            assert_eq!(path, &vec!["dir".to_string(), "app".to_string()]);
            assert_eq!(*mode, 0o100755);
        },
        _ => panic!("a recorded mode is applied after the write"),
    }
}

#[test]
fn version_marker_round_trip_takes_the_no_op_path() {
    let catalog = vec![CatalogRelease {
        name: Some("Release v1.2.3 ".to_string()),
        assets: vec![CatalogAsset {
            name: "app-linux-amd64.zip".to_string(),
            url: "https://dl/app.zip".to_string(),
        }],
    }];
    let resolved = resolve_release(&catalog, "-linux-amd64.zip").unwrap();
    assert_eq!(resolved.name, "Release v1.2.3");

    let entries = vec![entry("app/", b"", None)];
    let plan = build_install_plan(&entries, &resolved.name);
    let marker = plan
        .iter()
        .find_map(|a| match a {
            InstallAction::WriteVersionMarker { name } => Some(name.clone()),
            _ => None,
        })
        .unwrap();
    assert_eq!(marker, "Release v1.2.3");

    let installed = installed_version(VersionReadOutcome::Found(marker)).unwrap();
    let resolved_again = resolve_release(&catalog, "-linux-amd64.zip").unwrap();
    assert!(matches!(
        decide_update(&installed, resolved_again),
        UpdateDecision::UpToDate
    ));
}

#[test]
fn fresh_install_scenario_upgrades_from_the_empty_version() {
    let catalog = vec![CatalogRelease {
        name: Some("Release v1".to_string()),
        assets: vec![CatalogAsset {
            name: "app-linux-amd64.zip".to_string(),
            url: "https://dl/app-linux-amd64.zip".to_string(),
        }],
    }];
    let installed = installed_version(VersionReadOutcome::Missing).unwrap();
    let resolved = resolve_release(&catalog, "-linux-amd64.zip").unwrap();
    let banner = format!("Upgrading from {} to {}", installed, resolved.name);
    assert_eq!(banner, "Upgrading from  to Release v1");
    match decide_update(&installed, resolved) {
        UpdateDecision::Upgrade(r) => {
            assert_eq!(r.url, "https://dl/app-linux-amd64.zip");
            let entries = vec![entry("app/", b"", None), entry("app/bin", b"b", None)];
            let plan = build_install_plan(&entries, &r.name);
            match &plan[plan.len() - 3] {
                InstallAction::WriteVersionMarker { name } => assert_eq!(name, "Release v1"),
                _ => panic!("the marker carries the resolved name"),
            }
        },
        UpdateDecision::UpToDate => panic!("a fresh install always upgrades"),
    }
}

#[test]
fn error_messages_name_each_failure() {
    assert_eq!(UpdateError::CatalogQueryFailure.message(), "release catalog query failed");
    assert_eq!(UpdateError::DownloadFailure.message(), "archive download failed");
    assert_eq!(UpdateError::ArchiveCorrupt.message(), "archive corrupt");
    assert_eq!(UpdateError::ExtractionFailure.message(), "archive entry extraction failed");
    assert_eq!(
        UpdateError::PermissionApplyFailure.message(),
        "could not apply file permissions"
    );
    assert_eq!(UpdateError::SwapFailure.message(), "could not promote staging directory");
}
