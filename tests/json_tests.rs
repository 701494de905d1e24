use curio::json::{merge, JsonValue};

fn obj(entries: Vec<(&str, JsonValue)>) -> JsonValue {
    JsonValue::Object(entries.into_iter().map(|(k, v)| (k.to_string(), v)).collect())
}

fn num(n: &str) -> JsonValue {
    JsonValue::Number(n.to_string())
}

fn show(v: &JsonValue) -> String {
    match v {
        JsonValue::Null => "null".to_string(),
        JsonValue::Bool(b) => b.to_string(),
        JsonValue::Number(n) => n.clone(),
        JsonValue::Text(t) => format!("\"{}\"", t),
        JsonValue::Array(items) => {
            format!("[{}]", items.iter().map(show).collect::<Vec<_>>().join(","))
        }
        JsonValue::Object(entries) => format!(
            "{{{}}}",
            entries.iter().map(|(k, v)| format!("\"{}\":{}", k, show(v))).collect::<Vec<_>>().join(",")
        ),
    }
}

#[test]
fn objects_merge_key_by_key() {
    let a = obj(vec![("x", num("1")), ("nested", obj(vec![("p", num("1")), ("q", num("2"))]))]);
    let b = obj(vec![("nested", obj(vec![("q", num("3")), ("r", num("4"))])), ("y", JsonValue::Bool(true))]);
    assert_eq!(show(&merge(&a, &b)), r#"{"x":1,"nested":{"p":1,"q":3,"r":4},"y":true}"#);
}

#[test]
fn non_objects_are_replaced() {
    let a = obj(vec![("x", num("1"))]);
    let b = JsonValue::Array(vec![num("1"), JsonValue::Text("t".to_string())]);
    assert_eq!(show(&merge(&a, &b)), r#"[1,"t"]"#);
    assert_eq!(show(&merge(&b, &a)), r#"{"x":1}"#);
    let c = obj(vec![("x", obj(vec![("deep", JsonValue::Null)]))]);
    let d = obj(vec![("x", num("5"))]);
    assert_eq!(show(&merge(&c, &d)), r#"{"x":5}"#);
}

#[test]
fn merging_into_empty_object_copies() {
    let empty = JsonValue::Object(vec![]);
    let b = obj(vec![("k", JsonValue::Text("v".to_string()))]);
    assert_eq!(show(&merge(&empty, &b)), r#"{"k":"v"}"#);
    assert_eq!(show(&b.deep_clone()), r#"{"k":"v"}"#);
}
