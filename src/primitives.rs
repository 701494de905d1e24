//! The compute primitives' declared inputs and outputs, and the checks their
//! executors make on the inputs they are handed.
use vstd::prelude::*;

verus! {

/// An input that a primitive expects.
#[derive(Debug)]
pub struct InputDef {
    pub name: String,
    pub description: String,
    /// For example `application/json` or `text/*`.
    pub mime_type: String,
    /// 0 for optional, 1 for required, more for an array.
    pub min_count: usize,
    /// None for unlimited.
    pub max_count: Option<usize>,
}

/// An output that a primitive produces.
#[derive(Debug)]
pub struct OutputDef {
    pub name: String,
    pub description: String,
    pub mime_type: String,
}

/// One input value handed to a primitive.
#[derive(Debug)]
pub enum PrimitiveInput {
    ArtifactPath(String),
    Value(String),
}

/// One output a primitive produced.
#[derive(Debug)]
pub struct PrimitiveOutput {
    pub name: String,
    pub artifact_path: String,
}

/// Why the inputs handed to a primitive do not fit it.
#[derive(Debug, Clone, Copy, PartialEq, Eq, Structural)]
pub enum InputError {
    /// No input was given.
    Missing,
    /// An artifact path was given where an inline value is expected.
    ExpectedValue,
    /// An inline value was given where an artifact path is expected.
    ExpectedArtifactPath,
}

pub open spec fn input_is(
    d: InputDef,
    name: Seq<char>,
    description: Seq<char>,
    mime_type: Seq<char>,
    min_count: usize,
    max_count: Option<usize>,
) -> bool {
    &&& d.name@ == name
    &&& d.description@ == description
    &&& d.mime_type@ == mime_type
    &&& d.min_count == min_count
    &&& d.max_count == max_count
}

pub open spec fn output_is(
    d: OutputDef,
    name: Seq<char>,
    description: Seq<char>,
    mime_type: Seq<char>,
) -> bool {
    &&& d.name@ == name
    &&& d.description@ == description
    &&& d.mime_type@ == mime_type
}

fn input_def(
    name: &str,
    description: &str,
    mime_type: &str,
    min_count: usize,
    max_count: Option<usize>,
) -> (r: InputDef)
    ensures
        input_is(r, name@, description@, mime_type@, min_count, max_count),
{
    InputDef {
        name: String::from_str(name),
        description: String::from_str(description),
        mime_type: String::from_str(mime_type),
        min_count,
        max_count,
    }
}

fn output_def(name: &str, description: &str, mime_type: &str) -> (r: OutputDef)
    ensures
        output_is(r, name@, description@, mime_type@),
{
    OutputDef {
        name: String::from_str(name),
        description: String::from_str(description),
        mime_type: String::from_str(mime_type),
    }
}

/// The inline value of the first input.
pub fn single_value(inputs: &Vec<PrimitiveInput>) -> (r: Result<String, InputError>)
    ensures
        inputs@.len() == 0 ==> r == Err::<String, InputError>(InputError::Missing),
        inputs@.len() > 0 ==> match inputs@[0] {
            PrimitiveInput::Value(s) => r matches Ok(v) && v@ == s@,
            PrimitiveInput::ArtifactPath(_) => r == Err::<String, InputError>(
                InputError::ExpectedValue,
            ),
        },
{
    if inputs.len() == 0 {
        return Err(InputError::Missing);
    }
    match &inputs[0] {
        PrimitiveInput::Value(s) => Ok(s.clone()),
        PrimitiveInput::ArtifactPath(_) => Err(InputError::ExpectedValue),
    }
}

/// The artifact path of the first input.
pub fn single_artifact_path(inputs: &Vec<PrimitiveInput>) -> (r: Result<String, InputError>)
    ensures
        inputs@.len() == 0 ==> r == Err::<String, InputError>(InputError::Missing),
        inputs@.len() > 0 ==> match inputs@[0] {
            PrimitiveInput::ArtifactPath(p) => r matches Ok(v) && v@ == p@,
            PrimitiveInput::Value(_) => r == Err::<String, InputError>(
                InputError::ExpectedArtifactPath,
            ),
        },
{
    if inputs.len() == 0 {
        return Err(InputError::Missing);
    }
    match &inputs[0] {
        PrimitiveInput::ArtifactPath(p) => Ok(p.clone()),
        PrimitiveInput::Value(_) => Err(InputError::ExpectedArtifactPath),
    }
}

/// The artifact paths of all inputs, in order; an inline value among them is refused.
pub fn artifact_paths(inputs: &Vec<PrimitiveInput>) -> (r: Result<Vec<String>, InputError>)
    ensures
        match r {
            Ok(paths) => {
                &&& paths@.len() == inputs@.len()
                &&& forall|i: int|
                    0 <= i < inputs@.len() ==> ((#[trigger] inputs@[i]) matches PrimitiveInput::ArtifactPath(
                        p,
                    ) && paths@[i]@ == p@)
            },
            Err(e) => e == InputError::ExpectedArtifactPath && exists|i: int|
                0 <= i < inputs@.len() && (#[trigger] inputs@[i]) is Value,
        },
{
    let mut paths: Vec<String> = Vec::new();
    let mut i: usize = 0;
    while i < inputs.len()
        invariant
            0 <= i <= inputs@.len(),
            paths@.len() == i,
            forall|j: int|
                0 <= j < i ==> ((#[trigger] inputs@[j]) matches PrimitiveInput::ArtifactPath(p)
                    && paths@[j]@ == p@),
        decreases inputs@.len() - i,
    {
        match &inputs[i] {
            PrimitiveInput::ArtifactPath(p) => paths.push(p.clone()),
            PrimitiveInput::Value(_) => return Err(InputError::ExpectedArtifactPath),
        }
        i += 1;
    }
    Ok(paths)
}

/// Deep-merges JSON documents, later ones winning.
#[derive(Debug)]
pub struct MergeJson;

impl MergeJson {
    pub fn name(&self) -> (r: &'static str)
        ensures
            r@ == "MergeJson"@,
    {
        "MergeJson"
    }

    pub fn input_schema(&self) -> (r: Vec<InputDef>)
        ensures
            r@.len() == 1,
            input_is(r@[0], "inputs"@, "List of JSON files to merge"@, "application/json"@, 1, None::<usize>),
    {
        let mut r: Vec<InputDef> = Vec::new();
        r.push(input_def("inputs", "List of JSON files to merge", "application/json", 1, None));
        r
    }

    pub fn output_schema(&self) -> (r: Vec<OutputDef>)
        ensures
            r@.len() == 1,
            output_is(r@[0], "merged"@, "Merged JSON"@, "application/json"@),
    {
        let mut r: Vec<OutputDef> = Vec::new();
        r.push(output_def("merged", "Merged JSON", "application/json"));
        r
    }
}

/// Concatenates files in order.
#[derive(Debug)]
pub struct Concatenate;

impl Concatenate {
    pub fn name(&self) -> (r: &'static str)
        ensures
            r@ == "Concatenate"@,
    {
        "Concatenate"
    }

    pub fn input_schema(&self) -> (r: Vec<InputDef>)
        ensures
            r@.len() == 1,
            input_is(r@[0], "inputs"@, "Files to split/concat"@, "*/*"@, 1, None::<usize>),
    {
        let mut r: Vec<InputDef> = Vec::new();
        r.push(input_def("inputs", "Files to split/concat", "*/*", 1, None));
        r
    }

    pub fn output_schema(&self) -> (r: Vec<OutputDef>)
        ensures
            r@.len() == 1,
            output_is(r@[0], "output"@, "Concatenated file"@, "*/*"@),
    {
        let mut r: Vec<OutputDef> = Vec::new();
        r.push(output_def("output", "Concatenated file", "*/*"));
        r
    }
}

/// Keeps chosen columns of a CSV file.
#[derive(Debug)]
pub struct CsvSelect;

impl CsvSelect {
    pub fn name(&self) -> (r: &'static str)
        ensures
            r@ == "CsvSelect"@,
    {
        "CsvSelect"
    }

    pub fn input_schema(&self) -> (r: Vec<InputDef>)
        ensures
            r@.len() == 2,
            input_is(r@[0], "csv"@, "Input CSV"@, "text/csv"@, 1, Some(1usize)),
            input_is(r@[1], "columns"@, "Columns to select"@, "text/plain"@, 1, None::<usize>),
    {
        let mut r: Vec<InputDef> = Vec::new();
        r.push(input_def("csv", "Input CSV", "text/csv", 1, Some(1usize)));
        r.push(input_def("columns", "Columns to select", "text/plain", 1, None));
        r
    }

    pub fn output_schema(&self) -> (r: Vec<OutputDef>)
        ensures
            r@.len() == 1,
            output_is(r@[0], "output"@, "Selected CSV"@, "text/csv"@),
    {
        let mut r: Vec<OutputDef> = Vec::new();
        r.push(output_def("output", "Selected CSV", "text/csv"));
        r
    }
}

/// Runs an SQL query over CSV tables.
#[derive(Debug)]
pub struct CsvSql;

impl CsvSql {
    pub fn name(&self) -> (r: &'static str)
        ensures
            r@ == "CsvSql"@,
    {
        "CsvSql"
    }

    pub fn input_schema(&self) -> (r: Vec<InputDef>)
        ensures
            r@.len() == 1,
            input_is(r@[0], "query"@, "SQL Query"@, "text/plain"@, 1, Some(1usize)),
    {
        let mut r: Vec<InputDef> = Vec::new();
        r.push(input_def("query", "SQL Query", "text/plain", 1, Some(1usize)));
        r
    }

    pub fn output_schema(&self) -> (r: Vec<OutputDef>)
        ensures
            r@.len() == 1,
            output_is(r@[0], "result"@, "SQL Result CSV"@, "text/csv"@),
    {
        let mut r: Vec<OutputDef> = Vec::new();
        r.push(output_def("result", "SQL Result CSV", "text/csv"));
        r
    }
}

/// Fetches the body at a URL.
#[derive(Debug)]
pub struct FetchUrl;

impl FetchUrl {
    pub fn name(&self) -> (r: &'static str)
        ensures
            r@ == "FetchUrl"@,
    {
        "FetchUrl"
    }

    pub fn input_schema(&self) -> (r: Vec<InputDef>)
        ensures
            r@.len() == 1,
            input_is(r@[0], "url"@, "The URL to fetch"@, "text/plain"@, 1, Some(1usize)),
    {
        let mut r: Vec<InputDef> = Vec::new();
        r.push(input_def("url", "The URL to fetch", "text/plain", 1, Some(1usize)));
        r
    }

    pub fn output_schema(&self) -> (r: Vec<OutputDef>)
        ensures
            r@.len() == 1,
            output_is(r@[0], "content"@, "The fetched content body"@, "*/*"@),
    {
        let mut r: Vec<OutputDef> = Vec::new();
        r.push(output_def("content", "The fetched content body", "*/*"));
        r
    }
}

/// Imports an object from a bucket.
#[derive(Debug)]
pub struct S3Get;

impl S3Get {
    pub fn name(&self) -> (r: &'static str)
        ensures
            r@ == "S3Get"@,
    {
        "S3Get"
    }

    pub fn input_schema(&self) -> (r: Vec<InputDef>)
        ensures
            r@.len() == 2,
            input_is(r@[0], "bucket"@, "Bucket name"@, "text/plain"@, 1, Some(1usize)),
            input_is(r@[1], "key"@, "Object key"@, "text/plain"@, 1, Some(1usize)),
    {
        let mut r: Vec<InputDef> = Vec::new();
        r.push(input_def("bucket", "Bucket name", "text/plain", 1, Some(1usize)));
        r.push(input_def("key", "Object key", "text/plain", 1, Some(1usize)));
        r
    }

    pub fn output_schema(&self) -> (r: Vec<OutputDef>)
        ensures
            r@.len() == 1,
            output_is(r@[0], "file"@, "Downloaded file"@, "*/*"@),
    {
        let mut r: Vec<OutputDef> = Vec::new();
        r.push(output_def("file", "Downloaded file", "*/*"));
        r
    }
}

/// Exports a file to a bucket.
#[derive(Debug)]
pub struct S3Put;

impl S3Put {
    pub fn name(&self) -> (r: &'static str)
        ensures
            r@ == "S3Put"@,
    {
        "S3Put"
    }

    pub fn input_schema(&self) -> (r: Vec<InputDef>)
        ensures
            r@.len() == 3,
            input_is(r@[0], "file"@, "File to upload"@, "*/*"@, 1, Some(1usize)),
            input_is(r@[1], "bucket"@, "Dest Bucket"@, "text/plain"@, 1, Some(1usize)),
            input_is(r@[2], "key"@, "Dest Key"@, "text/plain"@, 1, Some(1usize)),
    {
        let mut r: Vec<InputDef> = Vec::new();
        r.push(input_def("file", "File to upload", "*/*", 1, Some(1usize)));
        r.push(input_def("bucket", "Dest Bucket", "text/plain", 1, Some(1usize)));
        r.push(input_def("key", "Dest Key", "text/plain", 1, Some(1usize)));
        r
    }

    pub fn output_schema(&self) -> (r: Vec<OutputDef>)
        ensures
            r@.len() == 0,
    {
        let r: Vec<OutputDef> = Vec::new();
        r
    }
}

/// Selects part of a JSON document with a JMESPath query.
#[derive(Debug)]
pub struct JsonSelect;

impl JsonSelect {
    pub fn name(&self) -> (r: &'static str)
        ensures
            r@ == "JsonSelect"@,
    {
        "JsonSelect"
    }

    pub fn input_schema(&self) -> (r: Vec<InputDef>)
        ensures
            r@.len() == 2,
            input_is(r@[0], "json"@, "The JSON document"@, "application/json"@, 1, Some(1usize)),
            input_is(r@[1], "query"@, "JMESPath query string"@, "text/plain"@, 1, Some(1usize)),
    {
        let mut r: Vec<InputDef> = Vec::new();
        r.push(input_def("json", "The JSON document", "application/json", 1, Some(1usize)));
        r.push(input_def("query", "JMESPath query string", "text/plain", 1, Some(1usize)));
        r
    }

    pub fn output_schema(&self) -> (r: Vec<OutputDef>)
        ensures
            r@.len() == 1,
            output_is(r@[0], "result"@, "The selected JSON fragment"@, "application/json"@),
    {
        let mut r: Vec<OutputDef> = Vec::new();
        r.push(output_def("result", "The selected JSON fragment", "application/json"));
        r
    }
}

/// Renders a Tera template with a JSON context.
#[derive(Debug)]
pub struct TemplateRender;

impl TemplateRender {
    pub fn name(&self) -> (r: &'static str)
        ensures
            r@ == "TemplateRender"@,
    {
        "TemplateRender"
    }

    pub fn input_schema(&self) -> (r: Vec<InputDef>)
        ensures
            r@.len() == 2,
            input_is(r@[0], "template"@, "Template string (Tera syntax)"@, "text/plain"@, 1, Some(1usize)),
            input_is(r@[1], "context"@, "JSON Context"@, "application/json"@, 1, Some(1usize)),
    {
        let mut r: Vec<InputDef> = Vec::new();
        r.push(input_def("template", "Template string (Tera syntax)", "text/plain", 1, Some(1usize)));
        r.push(input_def("context", "JSON Context", "application/json", 1, Some(1usize)));
        r
    }

    pub fn output_schema(&self) -> (r: Vec<OutputDef>)
        ensures
            r@.len() == 1,
            output_is(r@[0], "rendered"@, "Resulting text"@, "text/plain"@),
    {
        let mut r: Vec<OutputDef> = Vec::new();
        r.push(output_def("rendered", "Resulting text", "text/plain"));
        r
    }
}

} // verus!
