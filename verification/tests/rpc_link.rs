use orpc::json::Json;
use orpc::json_text::to_text;
use orpc::rpc::path_to_procedure_key;
use orpc::rpc_link::RpcLink;

#[test]
fn build_url_simple() {
    let link = RpcLink::new("http://localhost:3000/rpc");
    assert_eq!(link.build_url("ping"), "http://localhost:3000/rpc/ping");
}

#[test]
fn build_url_nested() {
    let link = RpcLink::new("http://localhost:3000/rpc");
    assert_eq!(link.build_url("planet.find"), "http://localhost:3000/rpc/planet/find");
}

#[test]
fn build_url_trailing_slash() {
    let link = RpcLink::new("http://localhost:3000/rpc/");
    assert_eq!(link.build_url("ping"), "http://localhost:3000/rpc/ping");
    let link = RpcLink::new("http://h/rpc///");
    assert_eq!(link.build_url("a.b"), "http://h/rpc/a/b");
}

#[test]
fn build_body_null_input() {
    let body = RpcLink::build_body(Json::Null);
    assert_eq!(to_text(&body), "{}");
}

#[test]
fn build_body_with_input() {
    let body = RpcLink::build_body(Json::String("Earth".into()));
    assert_eq!(to_text(&body), "{\"json\":\"Earth\"}");
}

#[test]
fn build_body_with_object() {
    let body = RpcLink::build_body(Json::Object(vec![("name".to_string(), Json::String("Earth".into()))]));
    assert_eq!(to_text(&body), "{\"json\":{\"name\":\"Earth\"}}");
}

#[test]
fn url_path_maps_back_to_key() {
    let link = RpcLink::new("/rpc");
    for key in ["ping", "planet.find", "api.v1.users"] {
        let url = link.build_url(key);
        assert_eq!(path_to_procedure_key(&url, "/rpc"), Some(key.to_string()));
    }
}

#[test]
fn with_client_keeps_base_url() {
    let link = RpcLink::new("http://h/rpc").with_client(reqwest::Client::new());
    assert_eq!(link.build_url("x"), "http://h/rpc/x");
}
