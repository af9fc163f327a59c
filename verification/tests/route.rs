use orpc::route::{ErrorMap, Meta, ProcedureMeta, Route};

#[test]
fn route_default() {
    let route = Route::new();
    assert!(route.method.is_none());
    assert!(route.path.is_none());
    assert!(route.tags.is_empty());
    assert!(!route.deprecated);
}

#[test]
fn route_get_builder() {
    let route = Route::get("/users")
        .tag("users")
        .tag("admin")
        .summary("List users")
        .description("Returns all users")
        .deprecated();

    assert_eq!(route.method.as_deref(), Some("GET"));
    assert_eq!(route.path.as_deref(), Some("/users"));
    assert_eq!(route.tags, vec!["users", "admin"]);
    assert_eq!(route.summary.as_deref(), Some("List users"));
    assert_eq!(route.description.as_deref(), Some("Returns all users"));
    assert!(route.deprecated);
}

#[test]
fn route_post() {
    let route = Route::post("/users");
    assert_eq!(route.method.as_deref(), Some("POST"));
    assert_eq!(route.path.as_deref(), Some("/users"));
}

#[test]
fn route_clone() {
    let route = Route::get("/test").tag("api");
    let cloned = route.clone();
    assert_eq!(cloned.path, route.path);
    assert_eq!(cloned.tags, route.tags);
}

#[test]
fn meta_default() {
    let _meta = Meta::default();
}

#[test]
fn error_map_default() {
    let _map = ErrorMap::default();
}

#[test]
fn route_put_and_delete() {
    let put = Route::put("/items/{id}");
    assert_eq!(put.method.as_deref(), Some("PUT"));
    assert_eq!(put.path.as_deref(), Some("/items/{id}"));
    let delete = Route::delete("/items/{id}");
    assert_eq!(delete.method.as_deref(), Some("DELETE"));
    assert!(delete.tags.is_empty());
    assert!(delete.summary.is_none());
}

#[test]
fn route_default_trait_is_blank() {
    let route = Route::default();
    assert!(route.method.is_none());
    assert!(route.description.is_none());
}

#[test]
fn procedure_meta_carries_route() {
    let meta = ProcedureMeta { route: Route::get("/test") };
    let copy = meta.clone();
    assert_eq!(copy.route.path.as_deref(), Some("/test"));
}
