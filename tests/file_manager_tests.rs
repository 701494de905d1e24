use curio::digest::{md5_hex, to_hex};
use curio::files::{LocalFileManager, TrackedFiles};
use curio::uri::{
    cache_file_name, fetch_file_name, file_uri, import_key, local_path, output_key, parse_s3_uri,
    s3_destination, s3_uri, temp_file_name, UriError,
};

#[test]
fn local_manager_tracks_and_drains() {
    let mut mgr = LocalFileManager::new("/tmp".to_string());
    assert_eq!(mgr.base_dir, "/tmp");
    assert!(mgr.drain_tracked().is_empty());
    mgr.track("/tmp/temp/a".to_string());
    mgr.track("/tmp/temp/b".to_string());
    assert_eq!(mgr.drain_tracked(), vec!["/tmp/temp/a".to_string(), "/tmp/temp/b".to_string()]);
    assert!(mgr.drain_tracked().is_empty());
}

#[test]
fn tracked_files_keep_order() {
    let mut t = TrackedFiles::new();
    t.track("x".to_string());
    t.track("y".to_string());
    assert_eq!(t.drain(), vec!["x".to_string(), "y".to_string()]);
    assert!(t.drain().is_empty());
}

#[test]
fn file_scheme_is_stripped() {
    assert_eq!(local_path("file:///tmp/a.txt"), "/tmp/a.txt");
    assert_eq!(local_path("/tmp/a.txt"), "/tmp/a.txt");
    assert_eq!(local_path("file:/"), "file:/");
    assert_eq!(file_uri("/tmp/x"), "file:///tmp/x");
}

#[test]
fn s3_uris_split_at_first_slash() {
    assert_eq!(
        parse_s3_uri("s3://bucket/dir/key.txt"),
        Ok(("bucket".to_string(), "dir/key.txt".to_string()))
    );
    assert_eq!(parse_s3_uri("s3://bucket"), Err(UriError::MissingKey));
    assert_eq!(parse_s3_uri("http://bucket/key"), Err(UriError::NotS3));
    assert_eq!(parse_s3_uri("s3://b/"), Ok(("b".to_string(), "".to_string())));
    assert_eq!(s3_uri("b", "k/x"), "s3://b/k/x");
}

#[test]
fn destinations_default_to_own_bucket() {
    assert_eq!(
        s3_destination("//out/result.json", "mine"),
        Ok(("mine".to_string(), "out/result.json".to_string()))
    );
    assert_eq!(
        s3_destination("s3://other//k", "mine"),
        Ok(("other".to_string(), "k".to_string()))
    );
    assert_eq!(s3_destination("s3://nokey", "mine"), Err(UriError::MissingKey));
}

#[test]
fn output_and_temp_names() {
    assert_eq!(output_key("", "fresh".to_string()), "fresh");
    assert_eq!(output_key("merged_result.json", "fresh".to_string()), "merged_result.json");
    assert_eq!(temp_file_name("", "fresh".to_string()), "fresh");
    assert_eq!(temp_file_name("a/b/c.txt", "fresh".to_string()), "a_b_c.txt");
    assert_eq!(import_key("b", "k/x"), "imported/b/k/x");
}

#[test]
fn md5_hex_digests() {
    assert_eq!(md5_hex(""), "d41d8cd98f00b204e9800998ecf8427e");
    assert_eq!(md5_hex("abc"), "900150983cd24fb0d6963f7d28e17f72");
    assert_eq!(to_hex(&[0u8, 15, 16, 255]), "000f10ff");
}

#[test]
fn fetch_and_cache_names() {
    assert_eq!(fetch_file_name("abc"), "fetch_900150983cd24fb0d6963f7d28e17f72");
    assert_eq!(
        cache_file_name("abc", "dir/file.txt"),
        "900150983cd24fb0d6963f7d28e17f72.txt"
    );
    assert_eq!(cache_file_name("abc", "dir/file"), "900150983cd24fb0d6963f7d28e17f72");
}
