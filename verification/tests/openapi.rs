use orpc::error::{ErrorCode, ORPCError};
use orpc::json::{Json, JsonNumber};
use orpc::openapi::{
    compile_path_pattern, decode_openapi_request, encode_openapi_error, encode_openapi_success, match_path,
    openapi_response, HttpMethod, PathSegment, RouteIndex,
};
use orpc::procedure_error::{ProcedureError, ResolverError};
use orpc::route::Route;
use orpc::router::Router;

fn to_json(v: &serde_json::Value) -> Json {
    match v {
        serde_json::Value::Null => Json::Null,
        serde_json::Value::Bool(b) => Json::Bool(*b),
        serde_json::Value::Number(n) => {
            if let Some(u) = n.as_u64() {
                Json::Number(JsonNumber::PosInt(u))
            } else if let Some(i) = n.as_i64() {
                Json::Number(JsonNumber::NegInt(i))
            } else {
                Json::Number(JsonNumber::Float(n.to_string()))
            }
        }
        serde_json::Value::String(s) => Json::String(s.clone()),
        serde_json::Value::Array(a) => Json::Array(a.iter().map(to_json).collect()),
        serde_json::Value::Object(m) => Json::Object(m.iter().map(|(k, v)| (k.clone(), to_json(v))).collect()),
    }
}

fn parse(text: &str) -> serde_json::Value {
    serde_json::from_str(text).unwrap()
}

fn param<'a>(params: &'a [(String, String)], name: &str) -> Option<&'a str> {
    params.iter().find(|(k, _)| k == name).map(|(_, v)| v.as_str())
}

fn member<'a>(v: &'a Json, name: &str) -> Option<&'a Json> {
    match v {
        Json::Object(ms) => ms.iter().find(|(k, _)| k == name).map(|(_, v)| v),
        _ => None,
    }
}

#[test]
fn compile_simple_path() {
    let segs = compile_path_pattern("/users");
    assert_eq!(segs, vec![PathSegment::Literal("users".into())]);
}

#[test]
fn compile_path_with_params() {
    let segs = compile_path_pattern("/users/{id}");
    assert_eq!(segs, vec![PathSegment::Literal("users".into()), PathSegment::Param("id".into()),]);
}

#[test]
fn compile_nested_path() {
    let segs = compile_path_pattern("/users/{id}/posts/{post_id}");
    assert_eq!(
        segs,
        vec![
            PathSegment::Literal("users".into()),
            PathSegment::Param("id".into()),
            PathSegment::Literal("posts".into()),
            PathSegment::Param("post_id".into()),
        ]
    );
}

#[test]
fn compile_edge_pieces() {
    let segs = compile_path_pattern("//a//{}/{x/}y}/");
    assert_eq!(
        segs,
        vec![
            PathSegment::Literal("a".into()),
            PathSegment::Param("".into()),
            PathSegment::Literal("{x".into()),
            PathSegment::Literal("}y}".into()),
        ]
    );
}

#[test]
fn match_literal_path() {
    let segs = compile_path_pattern("/users");
    let result = match_path(&segs, "/users");
    assert!(result.is_some());
    assert!(result.unwrap().is_empty());
}

#[test]
fn match_path_with_param() {
    let segs = compile_path_pattern("/users/{id}");
    let result = match_path(&segs, "/users/123").unwrap();
    assert_eq!(param(&result, "id").unwrap(), "123");
}

#[test]
fn match_nested_params() {
    let segs = compile_path_pattern("/users/{uid}/posts/{pid}");
    let result = match_path(&segs, "/users/alice/posts/42").unwrap();
    assert_eq!(param(&result, "uid").unwrap(), "alice");
    assert_eq!(param(&result, "pid").unwrap(), "42");
}

#[test]
fn match_wrong_literal() {
    let segs = compile_path_pattern("/users/{id}");
    assert!(match_path(&segs, "/posts/123").is_none());
}

#[test]
fn match_wrong_segment_count() {
    let segs = compile_path_pattern("/users/{id}");
    assert!(match_path(&segs, "/users/123/extra").is_none());
    assert!(match_path(&segs, "/users").is_none());
}

#[test]
fn match_repeated_param_keeps_last() {
    let segs = compile_path_pattern("/{a}/{a}");
    let result = match_path(&segs, "/x/y").unwrap();
    assert_eq!(result, vec![("a".to_string(), "y".to_string())]);
}

#[test]
fn http_method_conversion() {
    assert_eq!(HttpMethod::from_name(http::Method::GET.as_str()), Some(HttpMethod::Get));
    assert_eq!(HttpMethod::from_name(http::Method::POST.as_str()), Some(HttpMethod::Post));
    assert_eq!(HttpMethod::from_name(http::Method::DELETE.as_str()), Some(HttpMethod::Delete));
    assert!(HttpMethod::from_name(http::Method::CONNECT.as_str()).is_none());
}

#[test]
fn route_index_build_and_match() {
    let router = Router::new()
        .procedure("getUser", Route::get("/users/{id}"))
        .procedure("listUsers", Route::get("/users"))
        .procedure("createUser", Route::post("/users"))
        .procedure("ping", Route::default());

    let index = RouteIndex::build(&router);

    let m = index.match_route(HttpMethod::Get, "/users/123").unwrap();
    assert_eq!(m.procedure_key, "getUser");
    assert_eq!(param(&m.path_params, "id").unwrap(), "123");

    let m = index.match_route(HttpMethod::Get, "/users").unwrap();
    assert_eq!(m.procedure_key, "listUsers");

    let m = index.match_route(HttpMethod::Post, "/users").unwrap();
    assert_eq!(m.procedure_key, "createUser");

    assert!(index.match_route(HttpMethod::Delete, "/users").is_none());
    assert!(index.match_route(HttpMethod::Get, "/ping").is_none());
}

#[test]
fn route_index_prefers_more_literals() {
    let router = Router::new()
        .procedure("byId", Route::get("/users/{id}"))
        .procedure("me", Route::get("/users/me"));
    let index = RouteIndex::build(&router);
    let m = index.match_route(HttpMethod::Get, "/users/me").unwrap();
    assert_eq!(m.procedure_key, "me");
    let m = index.match_route(HttpMethod::Get, "/users/7").unwrap();
    assert_eq!(m.procedure_key, "byId");
}

#[test]
fn decode_get_with_query() {
    let params = vec![("id".to_string(), "42".to_string())];
    let val = decode_openapi_request(&params, Some("limit=10"), b"", Err("unused".into()), HttpMethod::Get).unwrap();
    assert_eq!(member(&val, "id"), Some(&Json::String("42".into())));
    assert_eq!(member(&val, "limit"), Some(&Json::String("10".into())));
}

#[test]
fn decode_post_with_body_and_params() {
    let params = vec![("id".to_string(), "1".to_string())];
    let body = br#"{"name": "Alice"}"#;
    let parsed = Ok(to_json(&parse(r#"{"name": "Alice"}"#)));
    let val = decode_openapi_request(&params, None, body, parsed, HttpMethod::Post).unwrap();
    assert_eq!(member(&val, "id"), Some(&Json::String("1".into())));
    assert_eq!(member(&val, "name"), Some(&Json::String("Alice".into())));
}

#[test]
fn decode_no_input() {
    let val = decode_openapi_request(&vec![], None, b"", Err("unused".into()), HttpMethod::Get).unwrap();
    assert_eq!(val, Json::Null);
}

#[test]
fn decode_body_overrides_query_and_params() {
    let params = vec![("id".to_string(), "1".to_string())];
    let parsed = Ok(to_json(&parse(r#"{"id": 2}"#)));
    let val = decode_openapi_request(&params, Some("id=3&q=a%20b"), b"{\"id\": 2}", parsed, HttpMethod::Put).unwrap();
    assert_eq!(member(&val, "id"), Some(&Json::Number(JsonNumber::PosInt(2))));
    assert_eq!(member(&val, "q"), Some(&Json::String("a b".into())));
}

#[test]
fn decode_non_object_body() {
    let parsed = Ok(Json::String("Earth".into()));
    let val = decode_openapi_request(&vec![], None, b"\"Earth\"", parsed, HttpMethod::Post).unwrap();
    assert_eq!(val, Json::String("Earth".into()));
    let params = vec![("id".to_string(), "1".to_string())];
    let parsed = Ok(Json::String("Earth".into()));
    let val = decode_openapi_request(&params, None, b"\"Earth\"", parsed, HttpMethod::Post).unwrap();
    assert_eq!(val, Json::Object(vec![("id".to_string(), Json::String("1".into()))]));
}

#[test]
fn decode_get_ignores_body() {
    let val = decode_openapi_request(&vec![], None, b"not json", Err("bad".into()), HttpMethod::Get).unwrap();
    assert_eq!(val, Json::Null);
}

#[test]
fn decode_invalid_body() {
    let err = decode_openapi_request(&vec![], None, b"not json", Err("expected value".into()), HttpMethod::Post)
        .unwrap_err();
    assert_eq!(err.code, ErrorCode::BadRequest);
    assert_eq!(err.message, "Invalid request body: expected value");
}

#[test]
fn encode_openapi_success_plain_json() {
    let value = to_json(&parse(r#"{"name": "Earth"}"#));
    let (status, body) = encode_openapi_success(&value);
    assert_eq!(status, 200);
    let val: serde_json::Value = serde_json::from_str(&body).unwrap();
    assert_eq!(val["name"], "Earth");
    assert!(val.get("json").is_none());
}

#[test]
fn encode_openapi_error_plain_json() {
    let err = ORPCError::not_found("nope");
    let (status, body) = encode_openapi_error(&err);
    assert_eq!(status, 404);
    let val: serde_json::Value = serde_json::from_str(&body).unwrap();
    assert_eq!(val["code"], "NOT_FOUND");
    assert!(val.get("json").is_none());
}

#[test]
fn encode_openapi_error_invalid_status() {
    let err = ORPCError::not_found("nope").with_status(42);
    let (status, _) = encode_openapi_error(&err);
    assert_eq!(status, 500);
}

#[test]
fn openapi_response_cases() {
    let (status, body) = openapi_response(Some(Ok(Json::String("hello world".into()))));
    assert_eq!(status, 200);
    assert_eq!(body, "\"hello world\"");
    let (status, body) = openapi_response(None);
    assert_eq!(status, 500);
    assert!(body.contains("Procedure returned no output"));
    let (status, body) =
        openapi_response(Some(Err(ProcedureError::Resolver(ResolverError::Orpc(ORPCError::not_found("x"))))));
    assert_eq!(status, 404);
    assert!(body.contains("NOT_FOUND"));
}

#[test]
fn decode_query_bracket_notation() {
    let val =
        decode_openapi_request(&vec![], Some("filter[name]=Earth"), b"", Err("unused".into()), HttpMethod::Get).unwrap();
    let expected = to_json(&parse(r#"{"filter":{"name":"Earth"}}"#));
    assert_eq!(val, expected);
    let val = decode_openapi_request(
        &vec![],
        Some("a[b][c]=1&a[b][d]=2&a[e]=3&plain=4&odd[=5&[x]=6"),
        b"",
        Err("unused".into()),
        HttpMethod::Get,
    )
    .unwrap();
    let st = |t: &str| Json::String(t.to_string());
    let obj = |ms: Vec<(&str, Json)>| Json::Object(ms.into_iter().map(|(k, v)| (k.to_string(), v)).collect());
    let expected = obj(vec![
        ("a", obj(vec![("b", obj(vec![("c", st("1")), ("d", st("2"))])), ("e", st("3"))])),
        ("plain", st("4")),
        ("odd[", st("5")),
        ("[x]", st("6")),
    ]);
    assert_eq!(val, expected);
}

#[test]
fn route_matching_ignores_registration_order() {
    let r1 = Router::new().procedure("k1", Route::get("/a/{x}")).procedure("k2", Route::get("/{y}/b"));
    let r2 = Router::new().procedure("k2", Route::get("/{y}/b")).procedure("k1", Route::get("/a/{x}"));
    let i1 = RouteIndex::build(&r1);
    let i2 = RouteIndex::build(&r2);
    let m1 = i1.match_route(HttpMethod::Get, "/a/b").unwrap();
    let m2 = i2.match_route(HttpMethod::Get, "/a/b").unwrap();
    assert_eq!(m1.procedure_key, "k1");
    assert_eq!(m2.procedure_key, "k1");
    assert_eq!(param(&m2.path_params, "x").unwrap(), "b");
}
