use curio::storage_layout::{
    artifact_file_key, artifact_metadata_key, artifact_path, node_type_path, storage_prefix,
};

#[test]
fn artifact_metadata_key_nests_six_characters() {
    let prefix = storage_prefix(None);
    assert_eq!(prefix, "curio-data");
    assert_eq!(
        artifact_metadata_key(&prefix, "1234567890ABCDEF"),
        "curio-data/artifacts/1/2/3/4/5/6/1234567890ABCDEF/artifact.yaml"
    );
    assert_eq!(
        artifact_file_key(&prefix, "1234567890ABCDEF", "content.bin"),
        "curio-data/artifacts/1/2/3/4/5/6/1234567890ABCDEF/content.bin"
    );
}

#[test]
fn short_ids_sit_directly_under_artifacts() {
    assert_eq!(artifact_path("p", "abc"), "p/artifacts/abc");
    assert_eq!(artifact_path("p", "abcdef"), "p/artifacts/a/b/c/d/e/f/abcdef/");
}

#[test]
fn given_prefix_and_type_path() {
    let prefix = storage_prefix(Some("custom".to_string()));
    assert_eq!(prefix, "custom");
    assert_eq!(node_type_path(&prefix, "MyType"), "custom/compute_node_types/MyType.yaml");
}
