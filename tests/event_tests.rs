use curio::events::{decode_event, BuildEvent};
use curio::external_inputs::{bucket_for_item, input_group, ExternalInput};

#[test]
fn build_manager_events_are_decoded() {
    assert_eq!(decode_event("curio.buildmanager", "NoOp", None), Some(BuildEvent::NoOp));
    assert_eq!(
        decode_event("curio.buildmanager", "ArtifactAdded", Some("abc".to_string())),
        Some(BuildEvent::ArtifactAdded { id: "abc".to_string() })
    );
    assert_eq!(
        decode_event("curio.buildmanager", "ArtifactRemoved", None),
        Some(BuildEvent::ArtifactRemoved { id: "unknown".to_string() })
    );
}

#[test]
fn other_messages_are_ignored() {
    assert_eq!(decode_event("someone.else", "NoOp", None), None);
    assert_eq!(decode_event("curio.buildmanager", "ComputeNodeDirty", None), None);
    assert_eq!(decode_event("curio.buildmanager", "", None), None);
}

fn entry(name: Option<&str>, bucket: Option<&str>) -> ExternalInput {
    ExternalInput { name: name.map(|s| s.to_string()), bucket: bucket.map(|s| s.to_string()) }
}

#[test]
fn item_ids_name_their_input_group() {
    assert_eq!(input_group("external/news/2024/a.html"), Some("news".to_string()));
    assert_eq!(input_group("external/news"), Some("news".to_string()));
    assert_eq!(input_group("internal/news/a"), None);
}

#[test]
fn bucket_comes_from_first_matching_group() {
    let inputs = vec![
        entry(Some("docs"), Some("docs-bucket")),
        entry(None, Some("nameless")),
        entry(Some("news"), None),
        entry(Some("news"), Some("news-bucket")),
    ];
    assert_eq!(bucket_for_item("external/docs/x.pdf", &inputs), Some("docs-bucket".to_string()));
    assert_eq!(bucket_for_item("external/news/x.html", &inputs), None);
    assert_eq!(bucket_for_item("external/other/x", &inputs), None);
    assert_eq!(bucket_for_item("docs/x.pdf", &inputs), None);
}
