use orpc::error::{ErrorCode, ORPCError};
use orpc::file::ORPCFile;
use orpc::json::{Json, JsonNumber};
use orpc::openapi::HttpMethod;
use orpc::procedure_error::{DeserializeError, ProcedureError, ResolverError};
use orpc::router::Router;
use orpc::rpc::{
    consume_single_value, decode_rpc_multipart_request, decode_rpc_request, encode_rpc_error, encode_rpc_success,
    path_to_procedure_key, route_rpc_request, sse_start_id, rpc_get_data, decode_rpc_get, rpc_answer_mode, RpcAnswerMode, MultipartFile, MultipartWire, ORPCConfig, RpcWire,
};

fn to_json(v: &serde_json::Value) -> Json {
    match v {
        serde_json::Value::Null => Json::Null,
        serde_json::Value::Bool(b) => Json::Bool(*b),
        serde_json::Value::Number(n) => {
            if let Some(u) = n.as_u64() {
                Json::Number(JsonNumber::PosInt(u))
            } else if let Some(i) = n.as_i64() {
                Json::Number(JsonNumber::NegInt(i))
            } else {
                Json::Number(JsonNumber::Float(n.to_string()))
            }
        }
        serde_json::Value::String(s) => Json::String(s.clone()),
        serde_json::Value::Array(a) => Json::Array(a.iter().map(to_json).collect()),
        serde_json::Value::Object(m) => Json::Object(m.iter().map(|(k, v)| (k.clone(), to_json(v))).collect()),
    }
}

fn from_json(v: &Json) -> serde_json::Value {
    match v {
        Json::Null => serde_json::Value::Null,
        Json::Bool(b) => serde_json::Value::Bool(*b),
        Json::Number(JsonNumber::PosInt(u)) => serde_json::Value::from(*u),
        Json::Number(JsonNumber::NegInt(i)) => serde_json::Value::from(*i),
        Json::Number(JsonNumber::Float(t)) => serde_json::from_str(t).unwrap(),
        Json::String(s) => serde_json::Value::String(s.clone()),
        Json::Array(a) => serde_json::Value::Array(a.iter().map(from_json).collect()),
        Json::Object(ms) => {
            let mut m = serde_json::Map::new();
            for (k, v) in ms {
                m.insert(k.clone(), from_json(v));
            }
            serde_json::Value::Object(m)
        }
    }
}

fn parse(text: &str) -> serde_json::Value {
    serde_json::from_str(text).unwrap()
}

/// The wire envelope of a request body, read the way the server reads it.
fn wire(body: &[u8]) -> Result<RpcWire, String> {
    let v: serde_json::Value = serde_json::from_slice(body).map_err(|e| e.to_string())?;
    let obj = v.as_object().ok_or_else(|| "invalid type: expected struct Wire".to_string())?;
    let json = match obj.get("json") {
        None | Some(serde_json::Value::Null) => None,
        Some(j) => Some(to_json(j)),
    };
    let meta = match obj.get("meta") {
        None => vec![],
        Some(m) => m.as_array().ok_or_else(|| "invalid type: expected a sequence".to_string())?.iter().map(to_json).collect(),
    };
    Ok(RpcWire { json, meta })
}

fn multipart_wire(data: &[u8]) -> Result<MultipartWire, String> {
    let v: serde_json::Value = serde_json::from_slice(data).map_err(|e| e.to_string())?;
    let obj = v.as_object().ok_or_else(|| "invalid type".to_string())?;
    let json = match obj.get("json") {
        None | Some(serde_json::Value::Null) => None,
        Some(j) => Some(to_json(j)),
    };
    let list = |name: &str| -> Vec<Json> {
        obj.get(name).and_then(|m| m.as_array()).map(|a| a.iter().map(to_json).collect()).unwrap_or_default()
    };
    Ok(MultipartWire { json, meta: list("meta"), maps: list("maps") })
}

fn decode(body: &[u8]) -> Result<Json, ORPCError> {
    decode_rpc_request(body, wire(body))
}

#[test]
fn path_to_key_basic() {
    assert_eq!(path_to_procedure_key("/rpc/ping", "/rpc"), Some("ping".into()));
}

#[test]
fn path_to_key_nested() {
    assert_eq!(path_to_procedure_key("/rpc/planet/list", "/rpc"), Some("planet.list".into()));
}

#[test]
fn path_to_key_deeply_nested() {
    assert_eq!(path_to_procedure_key("/rpc/api/v1/users", "/rpc"), Some("api.v1.users".into()));
}

#[test]
fn path_to_key_wrong_prefix() {
    assert_eq!(path_to_procedure_key("/other/ping", "/rpc"), None);
}

#[test]
fn path_to_key_empty_after_prefix() {
    assert_eq!(path_to_procedure_key("/rpc", "/rpc"), None);
    assert_eq!(path_to_procedure_key("/rpc/", "/rpc"), None);
}

#[test]
fn path_to_key_no_prefix() {
    assert_eq!(path_to_procedure_key("/ping", ""), Some("ping".into()));
}

#[test]
fn decode_with_json_and_meta() {
    let input = decode(br#"{"json": {"name": "World"}, "meta": []}"#).unwrap();
    assert_eq!(from_json(&input), parse(r#"{"name": "World"}"#));
}

#[test]
fn decode_with_json_only() {
    let input = decode(br#"{"json": "Earth"}"#).unwrap();
    assert_eq!(from_json(&input), parse(r#""Earth""#));
}

#[test]
fn decode_null_input() {
    let input = decode(br#"{"json": null}"#).unwrap();
    assert_eq!(input, Json::Null);
}

#[test]
fn decode_empty_object_no_input() {
    let input = decode(br#"{}"#).unwrap();
    assert_eq!(input, Json::Null);
}

#[test]
fn decode_empty_body() {
    let input = decode(b"").unwrap();
    assert_eq!(input, Json::Null);
}

#[test]
fn decode_invalid_json() {
    let err = decode(b"not json").unwrap_err();
    assert_eq!(err.code, ErrorCode::BadRequest);
    assert!(err.message.starts_with("Invalid request body: "));
}

#[test]
fn decode_applies_meta() {
    let input = decode(br#"{"json": {"a": 1, "gone": null, "m": [["k", 2]]}, "meta": [[3, "gone"], [7, "m"]]}"#).unwrap();
    assert_eq!(from_json(&input), parse(r#"{"a": 1, "m": {"k": 2}}"#));
}

#[test]
fn decode_bad_meta() {
    let err = decode(br#"{"json": {"a": 1}, "meta": [[99]]}"#).unwrap_err();
    assert_eq!(err.code, ErrorCode::BadRequest);
    assert_eq!(err.message, "Unknown meta type: 99");
    let err = decode(br#"{"json": {"a": 1}, "meta": [[3, "x", "y"]]}"#).unwrap_err();
    assert_eq!(err.message, "Meta path not found: x");
}

#[test]
fn encode_success_envelope() {
    let (status, body) = encode_rpc_success(Json::String("hello".into()));
    assert_eq!(status, 200);
    let json: serde_json::Value = serde_json::from_str(&body).unwrap();
    assert_eq!(json["json"], parse(r#""hello""#));
    assert!(json.get("meta").is_none());
    assert_eq!(body, "{\"json\":\"hello\"}");
}

#[test]
fn encode_error_envelope() {
    let err = ORPCError::not_found("User not found");
    let (status, body) = encode_rpc_error(&err);
    assert_eq!(status, 404);
    let json: serde_json::Value = serde_json::from_str(&body).unwrap();
    assert_eq!(json["json"]["code"], "NOT_FOUND");
    assert_eq!(json["json"]["status"], 404);
    assert_eq!(json["json"]["message"], "User not found");
}

#[test]
fn execute_rpc_success() {
    let (status, body) = consume_single_value(Some(Ok(Json::String("hello world".into()))));
    assert_eq!(status, 200);
    let json: serde_json::Value = serde_json::from_str(&body).unwrap();
    assert_eq!(json["json"], parse(r#""hello world""#));
}

#[test]
fn execute_rpc_handler_error() {
    let err = ProcedureError::Resolver(ResolverError::Orpc(ORPCError::not_found("nope")));
    let (status, body) = consume_single_value(Some(Err(err)));
    assert_eq!(status, 404);
    let json: serde_json::Value = serde_json::from_str(&body).unwrap();
    assert_eq!(json["json"]["code"], "NOT_FOUND");
}

#[test]
fn execute_rpc_empty_stream() {
    let (status, body) = consume_single_value(None);
    assert_eq!(status, 500);
    let json: serde_json::Value = serde_json::from_str(&body).unwrap();
    assert_eq!(json["json"]["code"], "INTERNAL_SERVER_ERROR");
}

#[test]
fn execute_rpc_deserialize_error() {
    let err = ProcedureError::Deserialize(DeserializeError("missing field `name`".into()));
    let (status, body) = consume_single_value(Some(Err(err)));
    assert_eq!(status, 400);
    let json: serde_json::Value = serde_json::from_str(&body).unwrap();
    assert_eq!(json["json"]["message"], "Bad request: missing field `name`");
}

fn file(data: &[u8], name: Option<&str>, content_type: Option<&str>) -> MultipartFile {
    MultipartFile {
        data: data.to_vec(),
        name: name.map(|s| s.to_string()),
        content_type: content_type.map(|s| s.to_string()),
    }
}

fn get<'a>(v: &'a Json, key: &str) -> &'a Json {
    match v {
        Json::Object(ms) => &ms.iter().find(|(k, _)| k == key).unwrap().1,
        _ => panic!("not an object"),
    }
}

#[test]
fn multipart_decode_single_file() {
    let data = br#"{"json":{"title":"Photo","avatar":{}},"meta":[],"maps":[["avatar"]]}"#;
    let files = vec![file(b"file-bytes", Some("photo.png"), Some("image/png"))];
    let value = decode_rpc_multipart_request(multipart_wire(data), files).unwrap();
    assert_eq!(get(&value, "title"), &Json::String("Photo".into()));
    assert!(matches!(get(get(&value, "avatar"), "data"), Json::String(_)));
    assert_eq!(get(get(&value, "avatar"), "name"), &Json::String("photo.png".into()));
    assert_eq!(get(get(&value, "avatar"), "contentType"), &Json::String("image/png".into()));
    let file = ORPCFile::from_json(get(&value, "avatar")).unwrap();
    assert_eq!(file.data, b"file-bytes");
}

#[test]
fn multipart_decode_multiple_files() {
    let data = br#"{"json":{"images":[{},{}]},"meta":[],"maps":[["images",0],["images",1]]}"#;
    let files = vec![file(b"img-0", Some("a.png"), Some("image/png")), file(b"img-1", Some("b.jpg"), Some("image/jpeg"))];
    let value = decode_rpc_multipart_request(multipart_wire(data), files).unwrap();
    let images = match get(&value, "images") {
        Json::Array(a) => a,
        _ => panic!("not an array"),
    };
    let file0 = ORPCFile::from_json(&images[0]).unwrap();
    assert_eq!(file0.data, b"img-0");
    assert_eq!(file0.name.as_deref(), Some("a.png"));
    let file1 = ORPCFile::from_json(&images[1]).unwrap();
    assert_eq!(file1.data, b"img-1");
    assert_eq!(file1.name.as_deref(), Some("b.jpg"));
}

#[test]
fn multipart_decode_with_meta() {
    let data = br#"{"json":{"name":"Earth","avatar":{},"deleted":null},"meta":[[3,"deleted"]],"maps":[["avatar"]]}"#;
    let files = vec![file(b"pic", None, None)];
    let value = decode_rpc_multipart_request(multipart_wire(data), files).unwrap();
    assert_eq!(get(&value, "name"), &Json::String("Earth".into()));
    assert!(matches!(get(get(&value, "avatar"), "data"), Json::String(_)));
    assert_eq!(get(get(&value, "avatar"), "name"), &Json::String("".into()));
    match &value {
        Json::Object(ms) => assert!(ms.iter().all(|(k, _)| k != "deleted")),
        _ => panic!("not an object"),
    }
}

#[test]
fn multipart_decode_missing_file() {
    let data = br#"{"json":{"file":{}},"meta":[],"maps":[["file"]]}"#;
    let result = decode_rpc_multipart_request(multipart_wire(data), vec![]);
    assert!(result.is_err());
    assert_eq!(result.unwrap_err().message, "maps references file 0 but only 0 files provided");
}

#[test]
fn multipart_decode_no_maps() {
    let data = br#"{"json":{"name":"test"},"meta":[],"maps":[]}"#;
    let value = decode_rpc_multipart_request(multipart_wire(data), vec![]).unwrap();
    assert_eq!(get(&value, "name"), &Json::String("test".into()));
}

#[test]
fn multipart_decode_invalid_data_json() {
    let result = decode_rpc_multipart_request(multipart_wire(b"not json"), vec![]);
    assert!(result.is_err());
    assert!(result.unwrap_err().message.starts_with("Invalid multipart data field: "));
}

#[test]
fn multipart_decode_bad_maps_entry() {
    let data = br#"{"json":{},"maps":["avatar"]}"#;
    let err = decode_rpc_multipart_request(multipart_wire(data), vec![file(b"x", None, None)]).unwrap_err();
    assert_eq!(err.message, "maps entry must be an array");
    let data = br#"{"json":{},"maps":[["missing"]]}"#;
    let err = decode_rpc_multipart_request(multipart_wire(data), vec![file(b"x", None, None)]).unwrap_err();
    assert_eq!(err.message, "Meta path not found: missing");
}

#[test]
fn route_rpc_request_decisions() {
    let router = Router::new().procedure("ping", 1u32).nest("planet", Router::new().procedure("list", 2u32));
    let config = ORPCConfig { prefix: "/rpc".to_string(), max_body_size: 1024 };
    assert_eq!(route_rpc_request(&router, Some(HttpMethod::Post), "/rpc/ping", &config.prefix).unwrap(), "ping");
    assert_eq!(
        route_rpc_request(&router, Some(HttpMethod::Post), "/rpc/planet/list", &config.prefix).unwrap(),
        "planet.list"
    );
    assert_eq!(route_rpc_request(&router, Some(HttpMethod::Get), "/rpc/ping", &config.prefix).unwrap(), "ping");
    let err = route_rpc_request(&router, Some(HttpMethod::Put), "/rpc/ping", &config.prefix).unwrap_err();
    assert_eq!(err.code, ErrorCode::MethodNotAllowed);
    assert_eq!(err.status, 405);
    assert_eq!(err.message, "Only GET and POST are allowed for RPC");
    let err = route_rpc_request(&router, None, "/rpc/ping", &config.prefix).unwrap_err();
    assert_eq!(err.code, ErrorCode::MethodNotAllowed);
    let err = route_rpc_request(&router, Some(HttpMethod::Post), "/other", &config.prefix).unwrap_err();
    assert_eq!(err.code, ErrorCode::NotFound);
    assert_eq!(err.message, "Unknown path: /other");
    let err = route_rpc_request(&router, Some(HttpMethod::Post), "/rpc/nope", &config.prefix).unwrap_err();
    assert_eq!(err.message, "Procedure not found: nope");
}

#[test]
fn config_default() {
    let config = ORPCConfig::default();
    assert_eq!(config.prefix, "");
    assert_eq!(config.max_body_size, 10 * 1024 * 1024);
}

#[test]
fn start_id_follows_last_event() {
    assert_eq!(sse_start_id(None), 0);
    assert_eq!(sse_start_id(Some(4)), 5);
}

#[test]
fn rpc_get_data_reads_the_data_parameter() {
    assert_eq!(rpc_get_data(None).unwrap(), None);
    assert_eq!(rpc_get_data(Some("")).unwrap(), None);
    assert_eq!(rpc_get_data(Some("other=1")).unwrap(), None);
    assert_eq!(
        rpc_get_data(Some("data=%7B%22json%22%3A%22Earth%22%7D")).unwrap(),
        Some(r#"{"json":"Earth"}"#.to_string())
    );
    assert_eq!(rpc_get_data(Some("x=1&data=a&data=b")).unwrap(), Some("a".to_string()));
}

#[test]
fn rpc_get_input_like_a_post_body() {
    let v = decode_rpc_get(None, Err("unused".into())).unwrap();
    assert_eq!(v, Json::Null);
    let v = decode_rpc_get(Some(""), Err("unused".into())).unwrap();
    assert_eq!(v, Json::Null);
    let wire = RpcWire { json: Some(Json::String("Earth".into())), meta: vec![] };
    let v = decode_rpc_get(Some(r#"{"json":"Earth"}"#), Ok(wire)).unwrap();
    assert_eq!(v, Json::String("Earth".into()));
    let err = decode_rpc_get(Some("{"), Err("eof".into())).unwrap_err();
    assert_eq!(err.code, ErrorCode::BadRequest);
    assert_eq!(err.message, "Invalid request body: eof");
}

#[test]
fn answer_mode_by_size_hint() {
    assert!(matches!(rpc_answer_mode((1, Some(1)), None), RpcAnswerMode::Json));
    assert!(matches!(rpc_answer_mode((0, None), None), RpcAnswerMode::EventStream(0)));
    assert!(matches!(rpc_answer_mode((3, Some(3)), Some(4)), RpcAnswerMode::EventStream(5)));
    assert!(matches!(rpc_answer_mode((1, Some(1)), Some(u64::MAX)), RpcAnswerMode::Json));
}

#[test]
fn prefix_matches_only_at_a_segment_boundary() {
    assert_eq!(path_to_procedure_key("/rpcfoo/ping", "/rpc"), None);
    assert_eq!(path_to_procedure_key("/rpc", "/rpc"), None);
    assert_eq!(path_to_procedure_key("/rpc/ping", "/rpc"), Some("ping".to_string()));
}
