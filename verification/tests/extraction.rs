//! Metadata extraction and fragment seeding on concrete paths.

use jrenamer::errors::RenameError;
use jrenamer::fragments::FragmentStore;
use jrenamer::metadata::{extract, seed_from_metadata, FileMetadata, StatInfo, StatProbe};

fn probe_with_size(size: u64) -> StatProbe {
    StatProbe {
        absolute_path: None,
        stat: Some(StatInfo { accessed: None, created: None, modified: None, size }),
    }
}

#[test]
fn extract_plain_file() {
    let meta = extract(&"report.txt".to_string(), probe_with_size(42)).unwrap();
    assert_eq!(meta.filename, "report.txt");
    assert_eq!(meta.extension, Some("txt".to_string()));
    assert_eq!(meta.path, "report.txt");
    assert_eq!(meta.filesize, 42);
    assert_eq!(meta.absolute_path, None);
}

#[test]
fn extract_nested_path_takes_last_component() {
    let meta = extract(&"music/ives/three.places.flac".to_string(), probe_with_size(9)).unwrap();
    assert_eq!(meta.filename, "three.places.flac");
    assert_eq!(meta.extension, Some("flac".to_string()));
}

#[test]
fn extract_dotfile_has_no_extension() {
    let meta = extract(&"home/.gitignore".to_string(), probe_with_size(1)).unwrap();
    assert_eq!(meta.filename, ".gitignore");
    assert_eq!(meta.extension, None);
}

#[test]
fn extract_trailing_dot_gives_empty_extension() {
    let meta = extract(&"notes.".to_string(), probe_with_size(1)).unwrap();
    assert_eq!(meta.extension, Some("".to_string()));
}

#[test]
fn extract_without_filename_fails() {
    assert_eq!(
        extract(&"".to_string(), probe_with_size(1)),
        Err(RenameError::NotAFile)
    );
    assert_eq!(
        extract(&"/".to_string(), probe_with_size(1)),
        Err(RenameError::NotAFile)
    );
    assert_eq!(
        extract(&"x/..".to_string(), probe_with_size(1)),
        Err(RenameError::NotAFile)
    );
    assert_eq!(
        extract(&"..".to_string(), probe_with_size(1)),
        Err(RenameError::NotAFile)
    );
    assert_eq!(
        extract(&".".to_string(), probe_with_size(1)),
        Err(RenameError::NotAFile)
    );
}

#[test]
fn extract_ignores_trailing_separators() {
    let meta = extract(&"some/dir/".to_string(), probe_with_size(1)).unwrap();
    assert_eq!(meta.filename, "dir");
    assert_eq!(meta.extension, None);
    let meta2 = extract(&"foo/bin//".to_string(), probe_with_size(1)).unwrap();
    assert_eq!(meta2.filename, "bin");
}

#[test]
fn extract_skips_dot_components() {
    let meta = extract(&"foo.txt/.".to_string(), probe_with_size(1)).unwrap();
    assert_eq!(meta.filename, "foo.txt");
    assert_eq!(meta.extension, Some("txt".to_string()));
    let meta2 = extract(&"foo.txt/.//".to_string(), probe_with_size(1)).unwrap();
    assert_eq!(meta2.filename, "foo.txt");
}

#[test]
fn trailing_separator_with_missing_stat_reports_metadata() {
    // The filename is extractable, so the failure is the unreadable file,
    // not the path shape.
    let probe = StatProbe { absolute_path: None, stat: None };
    assert_eq!(
        extract(&"dir/".to_string(), probe),
        Err(RenameError::MetadataUnavailable)
    );
}

#[test]
fn extract_without_stat_fails() {
    let probe = StatProbe { absolute_path: None, stat: None };
    assert_eq!(
        extract(&"ghost.txt".to_string(), probe),
        Err(RenameError::MetadataUnavailable)
    );
}

#[test]
fn extract_keeps_independent_optionals() {
    let probe = StatProbe {
        absolute_path: Some("/abs/report.txt".to_string()),
        stat: Some(StatInfo { accessed: Some(100), created: None, modified: Some(300), size: 5 }),
    };
    let meta = extract(&"report.txt".to_string(), probe).unwrap();
    assert_eq!(meta.absolute_path, Some("/abs/report.txt".to_string()));
    assert_eq!(meta.accessed, Some(100));
    assert_eq!(meta.created, None);
    assert_eq!(meta.modified, Some(300));
}

#[test]
fn seeding_populates_required_keys() {
    let meta = extract(&"report.txt".to_string(), probe_with_size(42)).unwrap();
    let mut store = FragmentStore::new();
    seed_from_metadata(&mut store, &meta);
    assert_eq!(store.get(&"filename".to_string()), Some(&"report".to_string()));
    assert_eq!(store.get(&"extension".to_string()), Some(&"txt".to_string()));
    assert_eq!(store.get(&"path".to_string()), Some(&"report.txt".to_string()));
    assert_eq!(store.get(&"filesize".to_string()), Some(&"42".to_string()));
    assert!(store.len() > 0);
}

#[test]
fn seeding_omits_absent_attributes() {
    let meta = FileMetadata {
        filename: "a".to_string(),
        extension: None,
        path: "a".to_string(),
        absolute_path: None,
        accessed: None,
        created: None,
        modified: None,
        filesize: 0,
    };
    let mut store = FragmentStore::new();
    seed_from_metadata(&mut store, &meta);
    assert!(!store.contains_key(&"extension".to_string()));
    assert!(!store.contains_key(&"absolute_path".to_string()));
    assert!(!store.contains_key(&"accessed".to_string()));
    assert!(!store.contains_key(&"created".to_string()));
    assert!(!store.contains_key(&"modified".to_string()));
    assert_eq!(store.get(&"filesize".to_string()), Some(&"0".to_string()));
}

#[test]
fn seeding_writes_timestamps_in_decimal() {
    let meta = FileMetadata {
        filename: "a".to_string(),
        extension: None,
        path: "a".to_string(),
        absolute_path: None,
        accessed: Some(1),
        created: Some(1234567890),
        modified: Some(0),
        filesize: 7,
    };
    let mut store = FragmentStore::new();
    seed_from_metadata(&mut store, &meta);
    assert_eq!(store.get(&"accessed".to_string()), Some(&"1".to_string()));
    assert_eq!(store.get(&"created".to_string()), Some(&"1234567890".to_string()));
    assert_eq!(store.get(&"modified".to_string()), Some(&"0".to_string()));
}

#[test]
fn seeding_overwrites_stale_fragments() {
    let meta = extract(&"new.txt".to_string(), probe_with_size(2)).unwrap();
    let mut store = FragmentStore::new();
    store.set("filename".to_string(), "stale".to_string());
    seed_from_metadata(&mut store, &meta);
    assert_eq!(store.get(&"filename".to_string()), Some(&"new".to_string()));
}
