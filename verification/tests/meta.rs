use orpc::error::ErrorCode;
use orpc::json::{Json, JsonNumber};
use orpc::meta::{apply_meta, parse_meta, parse_path, MetaEntry, MetaType, PathSegment};

fn to_json(v: &serde_json::Value) -> Json {
    match v {
        serde_json::Value::Null => Json::Null,
        serde_json::Value::Bool(b) => Json::Bool(*b),
        serde_json::Value::Number(n) => {
            if let Some(u) = n.as_u64() {
                Json::Number(JsonNumber::PosInt(u))
            } else if let Some(i) = n.as_i64() {
                Json::Number(JsonNumber::NegInt(i))
            } else {
                Json::Number(JsonNumber::Float(n.to_string()))
            }
        }
        serde_json::Value::String(s) => Json::String(s.clone()),
        serde_json::Value::Array(a) => Json::Array(a.iter().map(to_json).collect()),
        serde_json::Value::Object(m) => Json::Object(m.iter().map(|(k, v)| (k.clone(), to_json(v))).collect()),
    }
}

fn from_json(v: &Json) -> serde_json::Value {
    match v {
        Json::Null => serde_json::Value::Null,
        Json::Bool(b) => serde_json::Value::Bool(*b),
        Json::Number(JsonNumber::PosInt(u)) => serde_json::Value::from(*u),
        Json::Number(JsonNumber::NegInt(i)) => serde_json::Value::from(*i),
        Json::Number(JsonNumber::Float(t)) => serde_json::from_str(t).unwrap(),
        Json::String(s) => serde_json::Value::String(s.clone()),
        Json::Array(a) => serde_json::Value::Array(a.iter().map(from_json).collect()),
        Json::Object(ms) => {
            let mut m = serde_json::Map::new();
            for (k, v) in ms {
                m.insert(k.clone(), from_json(v));
            }
            serde_json::Value::Object(m)
        }
    }
}

fn j(text: &str) -> Json {
    to_json(&serde_json::from_str(text).unwrap())
}

fn v(text: &str) -> serde_json::Value {
    serde_json::from_str(text).unwrap()
}

#[test]
fn parse_empty_meta() {
    let entries = parse_meta(&[]).unwrap();
    assert!(entries.is_empty());
}

#[test]
fn parse_single_entry() {
    let meta = vec![j(r#"[1, "createdAt"]"#)];
    let entries = parse_meta(&meta).unwrap();
    assert_eq!(entries.len(), 1);
    assert_eq!(entries[0].meta_type, MetaType::Date);
    assert_eq!(entries[0].path, vec![PathSegment::Key("createdAt".into())]);
}

#[test]
fn parse_single_entry_nested_path() {
    let meta = vec![j(r#"[0, "data", "count"]"#)];
    let entries = parse_meta(&meta).unwrap();
    assert_eq!(entries.len(), 1);
    assert_eq!(entries[0].meta_type, MetaType::BigInt);
    assert_eq!(entries[0].path, vec![PathSegment::Key("data".into()), PathSegment::Key("count".into()),]);
}

#[test]
fn parse_multiple_entries() {
    let meta = vec![j(r#"[0, "count"]"#), j(r#"[1, "updated"]"#)];
    let entries = parse_meta(&meta).unwrap();
    assert_eq!(entries.len(), 2);
    assert_eq!(entries[0].meta_type, MetaType::BigInt);
    assert_eq!(entries[1].meta_type, MetaType::Date);
}

#[test]
fn parse_with_array_index() {
    let meta = vec![j(r#"[1, "items", 0, "date"]"#)];
    let entries = parse_meta(&meta).unwrap();
    assert_eq!(
        entries[0].path,
        vec![PathSegment::Key("items".into()), PathSegment::Index(0), PathSegment::Key("date".into()),]
    );
}

#[test]
fn parse_invalid_type() {
    let meta = vec![j(r#"[99]"#)];
    assert!(parse_meta(&meta).is_err());
}

#[test]
fn parse_entry_without_path() {
    let meta = vec![j(r#"[6]"#)];
    let entries = parse_meta(&meta).unwrap();
    assert_eq!(entries[0].meta_type, MetaType::JsSet);
    assert!(entries[0].path.is_empty());
}

#[test]
fn parse_errors_and_messages() {
    let cases = [
        (r#"[3]"#, None),
        (r#"{"a": 1}"#, Some("Invalid meta entry: expected array")),
        (r#"[]"#, Some("Empty meta entry")),
        (r#"["x"]"#, Some("Meta type must be a number")),
        (r#"[-1]"#, Some("Meta type must be a number")),
        (r#"[8]"#, Some("Unknown meta type: 8")),
        (r#"[1, true]"#, Some("Meta path segment must be string or number")),
        (r#"[1, -2]"#, Some("Meta path segment must be string or number")),
    ];
    for (text, expected) in cases {
        let result = parse_meta(&[j(text)]);
        match expected {
            None => assert!(result.is_ok()),
            Some(m) => {
                let err = result.unwrap_err();
                assert_eq!(err.code, ErrorCode::BadRequest);
                assert_eq!(err.status, 400);
                assert_eq!(err.message, m);
            }
        }
    }
}

#[test]
fn parse_stops_at_first_bad_entry() {
    let err = parse_meta(&[j("[1]"), j("[]"), j("[99]")]).unwrap_err();
    assert_eq!(err.message, "Empty meta entry");
}

#[test]
fn parse_path_segments() {
    let items = vec![j(r#""a""#), j("3")];
    assert_eq!(parse_path(&items).unwrap(), vec![PathSegment::Key("a".into()), PathSegment::Index(3)]);
    assert!(parse_path(&[j("null")]).is_err());
}

#[test]
fn apply_undefined_removes_key() {
    let mut value = j(r#"{"name": "Alice", "deleted": null}"#);
    let entries = vec![MetaEntry { meta_type: MetaType::Undefined, path: vec![PathSegment::Key("deleted".into())] }];
    apply_meta(&mut value, &entries).unwrap();
    let out = from_json(&value);
    assert!(out.get("deleted").is_none());
    assert_eq!(out.get("name").unwrap(), "Alice");
}

#[test]
fn apply_map_transforms_array_to_object() {
    let mut value = j(r#"{"data": [["a", 1], ["b", 2]]}"#);
    let entries = vec![MetaEntry { meta_type: MetaType::JsMap, path: vec![PathSegment::Key("data".into())] }];
    apply_meta(&mut value, &entries).unwrap();
    let out = from_json(&value);
    assert_eq!(out["data"]["a"], 1);
    assert_eq!(out["data"]["b"], 2);
}

#[test]
fn apply_noop_types() {
    let mut value = j(r#"{"count": "12345678901234567890", "date": "2024-01-01T00:00:00Z"}"#);
    let before = value.copy();
    let entries = vec![
        MetaEntry { meta_type: MetaType::BigInt, path: vec![PathSegment::Key("count".into())] },
        MetaEntry { meta_type: MetaType::Date, path: vec![PathSegment::Key("date".into())] },
    ];
    apply_meta(&mut value, &entries).unwrap();
    assert_eq!(value, before);
}

#[test]
fn apply_undefined_at_root() {
    let mut value = j("null");
    let entries = vec![MetaEntry { meta_type: MetaType::Undefined, path: vec![] }];
    apply_meta(&mut value, &entries).unwrap();
    assert_eq!(value, Json::Null);
}

#[test]
fn apply_nested_map() {
    let mut value = j(r#"{"response": {"mapping": [["x", 10], ["y", 20]]}}"#);
    let entries = vec![MetaEntry {
        meta_type: MetaType::JsMap,
        path: vec![PathSegment::Key("response".into()), PathSegment::Key("mapping".into())],
    }];
    apply_meta(&mut value, &entries).unwrap();
    let out = from_json(&value);
    assert_eq!(out["response"]["mapping"]["x"], 10);
    assert_eq!(out["response"]["mapping"]["y"], 20);
}

#[test]
fn apply_map_key_rules() {
    let mut value = j(r#"[[1, "one"], [{"b": 1, "a": 2}, "obj"], ["k", 1], ["k", 2], "skip", ["x"]]"#);
    let entries = vec![MetaEntry { meta_type: MetaType::JsMap, path: vec![] }];
    apply_meta(&mut value, &entries).unwrap();
    assert_eq!(from_json(&value), v(r#"{"1": "one", "{\"a\":2,\"b\":1}": "obj", "k": 2}"#));
}

#[test]
fn apply_undefined_in_array_nulls_element() {
    let mut value = j(r#"{"items": [1, 2, 3]}"#);
    let entries = vec![MetaEntry {
        meta_type: MetaType::Undefined,
        path: vec![PathSegment::Key("items".into()), PathSegment::Index(1)],
    }];
    apply_meta(&mut value, &entries).unwrap();
    assert_eq!(from_json(&value), v(r#"{"items": [1, null, 3]}"#));
}

#[test]
fn apply_missing_path_fails_and_keeps_earlier_changes() {
    let mut value = j(r#"{"a": null, "b": {}}"#);
    let entries = vec![
        MetaEntry { meta_type: MetaType::Undefined, path: vec![PathSegment::Key("a".into())] },
        MetaEntry { meta_type: MetaType::Undefined, path: vec![PathSegment::Key("x".into()), PathSegment::Key("y".into())] },
        MetaEntry { meta_type: MetaType::Undefined, path: vec![PathSegment::Key("b".into())] },
    ];
    let err = apply_meta(&mut value, &entries).unwrap_err();
    assert_eq!(err.code, ErrorCode::BadRequest);
    assert_eq!(err.message, "Meta path not found: x");
    assert_eq!(from_json(&value), v(r#"{"b": {}}"#));
    let mut arr = j("[1]");
    let entries = vec![MetaEntry { meta_type: MetaType::JsMap, path: vec![PathSegment::Index(5)] }];
    assert_eq!(apply_meta(&mut arr, &entries).unwrap_err().message, "Meta index out of bounds: 5");
}

#[test]
fn meta_type_ids() {
    assert_eq!(MetaType::from_u64(0), Some(MetaType::BigInt));
    assert_eq!(MetaType::from_u64(3), Some(MetaType::Undefined));
    assert_eq!(MetaType::from_u64(7), Some(MetaType::JsMap));
    assert_eq!(MetaType::from_u64(8), None);
}
