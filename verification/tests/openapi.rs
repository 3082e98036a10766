use tiphia_core::json::JsonValue;
use tiphia_core::openapi::{
    assign_unique_operation_ids, is_rewritable, normalize_for_swagger_editor, normalize_one_of_null,
    normalize_schema, normalize_type_array,
};

fn text(v: &JsonValue) -> String {
    match v {
        JsonValue::Null => "null".to_owned(),
        JsonValue::Bool(b) => b.to_string(),
        JsonValue::Number(n) => n.clone(),
        JsonValue::Str(s) => format!("{s:?}"),
        JsonValue::Array(items) => format!("[{}]", items.iter().map(text).collect::<Vec<_>>().join(",")),
        JsonValue::Object(es) => format!(
            "{{{}}}",
            es.iter().map(|(k, v)| format!("{k:?}:{}", text(v))).collect::<Vec<_>>().join(",")
        ),
    }
}

fn members(m: Vec<(&str, JsonValue)>) -> Vec<(String, JsonValue)> {
    m.into_iter().map(|(k, v)| (k.to_owned(), v)).collect()
}

fn s(v: &str) -> JsonValue {
    JsonValue::Str(v.to_owned())
}

#[test]
fn nullable_single_type() {
    let mut o = members(vec![("type", JsonValue::Array(vec![s("string"), s("null")]))]);
    normalize_type_array(&mut o);
    assert_eq!(text(&JsonValue::Object(o)), "{\"type\":\"string\",\"nullable\":true}");
}

#[test]
fn several_types_become_one_of() {
    let mut o = members(vec![("type", JsonValue::Array(vec![s("string"), s("integer")]))]);
    normalize_type_array(&mut o);
    assert_eq!(
        text(&JsonValue::Object(o)),
        "{\"oneOf\":[{\"type\":\"string\"},{\"type\":\"integer\"}]}"
    );
    let mut o = members(vec![("type", JsonValue::Array(vec![s("null")]))]);
    normalize_type_array(&mut o);
    assert_eq!(text(&JsonValue::Object(o)), "{\"nullable\":true}");
    let mut o = members(vec![("type", s("object"))]);
    normalize_type_array(&mut o);
    assert_eq!(text(&JsonValue::Object(o)), "{\"type\":\"object\"}");
}

#[test]
fn null_alternative_folds_into_the_schema() {
    let null_schema = JsonValue::Object(members(vec![("type", s("null"))]));
    let reference = JsonValue::Object(members(vec![("$ref", s("#/components/schemas/User"))]));
    let mut o = members(vec![
        ("description", s("owner")),
        ("oneOf", JsonValue::Array(vec![null_schema, reference])),
    ]);
    normalize_one_of_null(&mut o);
    assert_eq!(
        text(&JsonValue::Object(o)),
        "{\"description\":\"owner\",\"nullable\":true,\"$ref\":\"#/components/schemas/User\"}"
    );
    let mut o = members(vec![("oneOf", s("broken"))]);
    normalize_one_of_null(&mut o);
    assert_eq!(text(&JsonValue::Object(o)), "{}");
}

#[test]
fn operation_ids_come_from_method_and_path() {
    let get = JsonValue::Object(members(vec![("summary", s("x"))]));
    let item = JsonValue::Object(members(vec![("get", get), ("put", JsonValue::Null), ("parameters", JsonValue::Array(vec![]))]));
    let mut doc = members(vec![("paths", JsonValue::Object(members(vec![("/api/v1/posts/{id}/terms", item)])))]);
    assign_unique_operation_ids(&mut doc);
    assert_eq!(
        text(&JsonValue::Object(doc)),
        "{\"paths\":{\"/api/v1/posts/{id}/terms\":{\"get\":{\"summary\":\"x\",\"operationId\":\"get_api_v1_posts__id__terms\"},\"put\":{\"operationId\":\"put_api_v1_posts__id__terms\"},\"parameters\":[]}}}"
    );
}

#[test]
fn schemas_are_normalized_everywhere() {
    let inner = JsonValue::Object(members(vec![("type", JsonValue::Array(vec![s("integer"), s("null")]))]));
    let mut v = JsonValue::Array(vec![JsonValue::Object(members(vec![("properties", JsonValue::Object(members(vec![("n", inner)])))]))]);
    normalize_schema(&mut v);
    assert_eq!(text(&v), "[{\"properties\":{\"n\":{\"type\":\"integer\",\"nullable\":true}}}]");
}

#[test]
fn document_gets_version_ids_and_schemas() {
    let mut doc = JsonValue::Object(members(vec![
        ("openapi", s("3.1.0")),
        ("paths", JsonValue::Object(members(vec![("/health", JsonValue::Object(members(vec![("get", JsonValue::Object(vec![]))])))]))),
        ("components", JsonValue::Object(members(vec![("t", JsonValue::Object(members(vec![("type", JsonValue::Array(vec![s("string"), s("null")]))])))]))),
    ]));
    normalize_for_swagger_editor(&mut doc);
    assert_eq!(
        text(&doc),
        "{\"openapi\":\"3.0.3\",\"paths\":{\"/health\":{\"get\":{\"operationId\":\"get_health\"}}},\"components\":{\"t\":{\"type\":\"string\",\"nullable\":true}}}"
    );
}

#[test]
fn rewritable_documents() {
    assert!(is_rewritable(&JsonValue::Null));
    assert!(!is_rewritable(&s("doc")));
    let plain = JsonValue::Object(members(vec![("info", JsonValue::Null)]));
    assert!(is_rewritable(&plain));
    let ok = JsonValue::Object(members(vec![(
        "paths",
        JsonValue::Object(members(vec![(
            "/posts",
            JsonValue::Object(members(vec![("get", JsonValue::Null), ("summary", s("x"))])),
        )])),
    )]));
    assert!(is_rewritable(&ok));
    let bad = JsonValue::Object(members(vec![(
        "paths",
        JsonValue::Object(members(vec![(
            "/posts",
            JsonValue::Object(members(vec![("post", s("oops"))])),
        )])),
    )]));
    assert!(!is_rewritable(&bad));
}
