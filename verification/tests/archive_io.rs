use std::io::Write;
use updater::archive::open_archive;
use updater::errors::UpdateError;
use updater::plan::{build_install_plan, InstallAction};

fn sample_zip() -> Vec<u8> {
    let mut w = zip::ZipWriter::new(std::io::Cursor::new(Vec::new()));
    let opts = zip::write::SimpleFileOptions::default();
    w.add_directory("dir/", opts).unwrap();
    let exec_opts = zip::write::SimpleFileOptions::default().unix_permissions(0o755);
    w.start_file("dir/hello.txt", exec_opts).unwrap();
    w.write_all(b"hello world").unwrap();
    w.start_file("../evil.txt", opts).unwrap();
    w.write_all(b"evil").unwrap();
    w.finish().unwrap().into_inner()
}

#[test]
fn archive_entries_come_back_as_written() {
    let mut a = open_archive(sample_zip()).unwrap();
    assert_eq!(a.entry_count(), 3);
    let entries = a.read_entries().unwrap();
    assert_eq!(entries.len(), 3);
    assert_eq!(entries[0].name, "dir/");
    assert_eq!(entries[1].name, "dir/hello.txt");
    assert_eq!(entries[1].data, b"hello world");
    assert_eq!(entries[1].unix_mode.map(|m| m & 0o777), Some(0o755));
    assert_eq!(entries[2].name, "../evil.txt");
    assert_eq!(entries[2].data, b"evil");
}

#[test]
fn extracted_archive_plans_safe_writes_only() {
    let mut a = open_archive(sample_zip()).unwrap();
    let entries = a.read_entries().unwrap();
    let plan = build_install_plan(&entries, &"Release v1".to_string());
    let mut wrote_hello = false;
    for action in plan.iter() {
        match action {
            InstallAction::WriteFile { path, data } => {
                assert_eq!(path, &vec!["dir".to_string(), "hello.txt".to_string()]);
                assert_eq!(data, b"hello world");
                wrote_hello = true;
            },
            InstallAction::MakeDir { path } => {
                assert_eq!(path, &vec!["dir".to_string()]);
            },
            _ => {},
        }
    }
    assert!(wrote_hello);
}

#[test]
fn reading_twice_yields_the_same_entries() {
    let mut a = open_archive(sample_zip()).unwrap();
    let first = a.read_entries().unwrap();
    let second = a.read_entries().unwrap();
    assert_eq!(first.len(), second.len());
    assert_eq!(first[1].name, second[1].name);
    assert_eq!(first[1].data, second[1].data);
}

#[test]
fn unparseable_bytes_are_corrupt() {
    match open_archive(vec![0x50, 0x4b, 0x03, 0x04, 0xff]) {
        Err(e) => assert_eq!(e, UpdateError::ArchiveCorrupt),
        Ok(_) => panic!("random bytes are not an archive"),
    }
}

#[test]
fn empty_archive_has_no_entries() {
    let w = zip::ZipWriter::new(std::io::Cursor::new(Vec::new()));
    let bytes = w.finish().unwrap().into_inner();
    let mut a = open_archive(bytes).unwrap();
    assert_eq!(a.entry_count(), 0);
    let entries = a.read_entries().unwrap();
    assert!(entries.is_empty());
}
