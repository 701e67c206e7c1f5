use rclone_mounts_core::backend_features::{backend_features_table, lookup, webdav_put_stream, BackendFeatures};

fn f(put_stream: bool, duplicate_files: bool) -> BackendFeatures {
    BackendFeatures { put_stream, duplicate_files }
}

#[test]
fn looks_up_known_backend() {
    assert_eq!(lookup("drive"), Some(f(true, true)));
    assert_eq!(lookup("iclouddrive"), Some(f(false, false)));
}

#[test]
fn unknown_backend_is_none() {
    assert_eq!(lookup("webdav"), None);
    assert_eq!(lookup("not-a-real-backend"), None);
}

#[test]
fn webdav_only_streams_for_the_rclone_vendor() {
    assert!(webdav_put_stream("rclone"));
    assert!(!webdav_put_stream("nextcloud"));
    assert!(!webdav_put_stream("other"));
    assert!(!webdav_put_stream(""));
}

#[test]
fn table_has_no_duplicate_entries() {
    let table = backend_features_table();
    let mut tags: Vec<&str> = table.iter().map(|(tag, _)| *tag).collect();
    tags.sort_unstable();
    tags.dedup();
    assert_eq!(tags.len(), table.len());
}

#[test]
fn every_table_entry_is_found_by_lookup() {
    for (tag, features) in backend_features_table() {
        assert_eq!(lookup(tag), Some(features), "{tag}");
    }
    assert_eq!(lookup("sftp"), Some(f(true, false)));
    assert_eq!(lookup("smb"), Some(f(true, false)));
}
