use curio::primitives::{
    artifact_paths, single_artifact_path, single_value, Concatenate, CsvSelect, CsvSql, FetchUrl,
    InputError, JsonSelect, MergeJson, PrimitiveInput, S3Get, S3Put, TemplateRender,
};

#[test]
fn schemas_describe_inputs_and_outputs() {
    let m = MergeJson;
    assert_eq!(m.name(), "MergeJson");
    let ins = m.input_schema();
    assert_eq!(ins.len(), 1);
    assert_eq!(ins[0].name, "inputs");
    assert_eq!(ins[0].min_count, 1);
    assert_eq!(ins[0].max_count, None);
    assert_eq!(m.output_schema()[0].name, "merged");

    let j = JsonSelect;
    let ins = j.input_schema();
    assert_eq!(ins.len(), 2);
    assert_eq!(ins[1].name, "query");
    assert_eq!(ins[1].max_count, Some(1));
    assert_eq!(j.output_schema()[0].mime_type, "application/json");

    assert_eq!(S3Put.output_schema().len(), 0);
    assert_eq!(S3Put.input_schema().len(), 3);
    assert_eq!(S3Get.input_schema()[1].name, "key");
    assert_eq!(FetchUrl.output_schema()[0].name, "content");
    assert_eq!(TemplateRender.input_schema()[0].description, "Template string (Tera syntax)");
    assert_eq!(Concatenate.output_schema()[0].name, "output");
    assert_eq!(CsvSelect.input_schema()[1].max_count, None);
    assert_eq!(CsvSql.name(), "CsvSql");
}

#[test]
fn inline_values_and_paths_are_told_apart() {
    let v = vec![PrimitiveInput::Value("http://example.com".to_string())];
    let p = vec![PrimitiveInput::ArtifactPath("/tmp/c1.txt".to_string())];
    assert_eq!(single_value(&v), Ok("http://example.com".to_string()));
    assert_eq!(single_value(&p), Err(InputError::ExpectedValue));
    assert_eq!(single_value(&vec![]), Err(InputError::Missing));
    assert_eq!(single_artifact_path(&p), Ok("/tmp/c1.txt".to_string()));
    assert_eq!(single_artifact_path(&v), Err(InputError::ExpectedArtifactPath));
}

#[test]
fn concatenation_takes_only_paths() {
    let both = vec![
        PrimitiveInput::ArtifactPath("/tmp/c1.txt".to_string()),
        PrimitiveInput::ArtifactPath("/tmp/c2.txt".to_string()),
    ];
    assert_eq!(
        artifact_paths(&both),
        Ok(vec!["/tmp/c1.txt".to_string(), "/tmp/c2.txt".to_string()])
    );
    let mixed = vec![
        PrimitiveInput::ArtifactPath("/tmp/c1.txt".to_string()),
        PrimitiveInput::Value("x".to_string()),
    ];
    assert_eq!(artifact_paths(&mixed), Err(InputError::ExpectedArtifactPath));
}
