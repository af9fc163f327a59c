use base64::Engine;
use orpc::file::{FileDecodeError, FileField, ORPCFile};
use orpc::json::Json;
use orpc::json_text::to_text;

fn obj(members: Vec<(&str, Json)>) -> Json {
    Json::Object(members.into_iter().map(|(k, v)| (k.to_string(), v)).collect())
}

fn field<'a>(v: &'a Json, key: &str) -> &'a Json {
    match v {
        Json::Object(ms) => &ms.iter().find(|(k, _)| k == key).unwrap().1,
        _ => panic!("not an object"),
    }
}

#[test]
fn serialize_roundtrip() {
    let file = ORPCFile::new(b"hello world".to_vec()).with_name("test.txt").with_content_type("text/plain");
    let json = file.to_json();
    assert_eq!(
        field(&json, "data"),
        &Json::String(base64::engine::general_purpose::STANDARD.encode(b"hello world"))
    );
    assert_eq!(field(&json, "name"), &Json::String("test.txt".into()));
    assert_eq!(field(&json, "contentType"), &Json::String("text/plain".into()));
    let deserialized = ORPCFile::from_json(&json).unwrap();
    assert_eq!(deserialized.data, b"hello world");
    assert_eq!(deserialized.name.as_deref(), Some("test.txt"));
    assert_eq!(deserialized.content_type.as_deref(), Some("text/plain"));
}

#[test]
fn serialize_layout() {
    let file = ORPCFile::new(b"hi".to_vec());
    assert_eq!(to_text(&file.to_json()), "{\"contentType\":null,\"data\":\"aGk=\",\"name\":null}");
}

#[test]
fn deserialize_minimal() {
    let json = obj(vec![("data", Json::String(base64::engine::general_purpose::STANDARD.encode(b"bytes")))]);
    let file = ORPCFile::from_json(&json).unwrap();
    assert_eq!(file.data, b"bytes");
    assert!(file.name.is_none());
    assert!(file.content_type.is_none());
}

#[test]
fn deserialize_invalid_base64() {
    let json = obj(vec![("data", Json::String("not valid base64!!!".into()))]);
    let result = ORPCFile::from_json(&json);
    assert!(result.is_err());
    assert!(matches!(result.unwrap_err(), FileDecodeError::InvalidBase64(_)));
}

#[test]
fn deserialize_missing_data() {
    let json = obj(vec![("name", Json::String("test.txt".into()))]);
    let result = ORPCFile::from_json(&json);
    assert!(result.is_err());
    assert!(matches!(result.unwrap_err(), FileDecodeError::MissingData));
}

#[test]
fn deserialize_rejections() {
    assert!(matches!(ORPCFile::from_json(&Json::Null), Err(FileDecodeError::NotAnObject)));
    let unknown = obj(vec![("data", Json::String("".into())), ("size", Json::Null)]);
    assert!(matches!(ORPCFile::from_json(&unknown), Err(FileDecodeError::UnknownField(ref k)) if k == "size"));
    let bad = obj(vec![("data", Json::Null)]);
    assert!(matches!(ORPCFile::from_json(&bad), Err(FileDecodeError::InvalidType(FileField::Data))));
    let bad_name = obj(vec![("data", Json::String("".into())), ("name", Json::Bool(true))]);
    assert!(matches!(ORPCFile::from_json(&bad_name), Err(FileDecodeError::InvalidType(FileField::Name))));
}

#[test]
fn empty_file() {
    let file = ORPCFile::new(vec![]);
    let json = file.to_json();
    let deserialized = ORPCFile::from_json(&json).unwrap();
    assert!(deserialized.data.is_empty());
}
