use orpc::router::Router;

fn dummy_procedure() -> &'static str {
    "ok"
}

#[test]
fn router_basic() {
    let router = Router::new().procedure("ping", dummy_procedure()).procedure("pong", dummy_procedure());

    assert_eq!(router.len(), 2);
    assert!(router.get("ping").is_some());
    assert!(router.get("pong").is_some());
    assert!(router.get("missing").is_none());
}

#[test]
fn router_nest() {
    let inner = Router::new().procedure("list", dummy_procedure()).procedure("find", dummy_procedure());

    let router = Router::new().procedure("ping", dummy_procedure()).nest("planet", inner);

    assert_eq!(router.len(), 3);
    assert!(router.get("ping").is_some());
    assert!(router.get("planet.list").is_some());
    assert!(router.get("planet.find").is_some());
}

#[test]
fn router_macro_with_manual_nest() {
    let inner = Router::new().procedure("list", dummy_procedure()).procedure("find", dummy_procedure());
    let r = Router::new().procedure("ping", dummy_procedure()).nest("planet", inner);
    assert_eq!(r.len(), 3);
    assert!(r.get("planet.list").is_some());
}

#[test]
fn router_macro_deep_nested() {
    let v1 = Router::new().procedure("users", dummy_procedure());
    let mut api = Router::new();
    api._insert_nest("v1", v1);
    api._insert("health", dummy_procedure());
    let mut r = Router::new();
    r._insert_nest("api", api);
    assert_eq!(r.len(), 2);
    assert!(r.get("api.v1.users").is_some());
    assert!(r.get("api.health").is_some());
}

#[test]
fn router_empty() {
    let r: Router<()> = Router::new();
    assert!(r.is_empty());
    let d: Router<()> = Router::default();
    assert_eq!(d.len(), 0);
}

#[test]
fn router_get_returns_stored_procedure() {
    let r = Router::new().procedure("a", 1u32).nest("n", Router::new().procedure("b", 2u32));
    assert_eq!(r.get("a"), Some(&1));
    assert_eq!(r.get("n.b"), Some(&2));
    let keys: Vec<&str> = r.procedures().iter().map(|(k, _)| k.as_str()).collect();
    assert_eq!(keys, vec!["a", "n.b"]);
}
