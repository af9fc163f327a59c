use orpc::contract::oc;
use orpc::json::Json;
use orpc::route::Route;
use orpc::schema::{specta, ErasedSchema, Identity, NoSchema, Schema, SchemaAdapter};

#[test]
fn identity_passthrough() {
    let schema = Identity::<String>::new();
    let result = schema.validate("hello".to_string());
    assert_eq!(result.unwrap(), "hello");
}

#[test]
fn identity_json_schema() {
    let schema = Identity::<u32>::new();
    assert_eq!(schema.json_schema(), Json::Object(vec![]));
}

#[test]
fn schema_adapter_erased() {
    let schema = Identity::<u32>::new();
    let erased: Box<dyn ErasedSchema> = Box::new(SchemaAdapter(schema));
    assert_eq!(erased.json_schema(), Json::Object(vec![]));
}

#[test]
fn no_schema_returns_null() {
    let schema = NoSchema;
    assert_eq!(schema.json_schema(), Json::Null);
}

#[test]
fn specta_is_passthrough() {
    let wrapper = specta::<String>();
    assert!(wrapper.is_passthrough());
}

#[test]
fn identity_is_not_marked_passthrough() {
    assert!(!Identity::<String>::new().is_passthrough());
}

#[test]
fn contract_builder_full() {
    let contract = oc()
        .route(Route::get("/users/{id}"))
        .input(Identity::<String>::new())
        .output(Identity::<u32>::new())
        .build();

    assert!(contract.input_schema.is_some());
    assert!(contract.output_schema.is_some());
    assert_eq!(contract.route.method.as_deref(), Some("GET"));
    assert_eq!(contract.route.path.as_deref(), Some("/users/{id}"));
}

#[test]
fn contract_builder_input_only() {
    let contract = oc().input(Identity::<String>::new()).build();

    assert!(contract.input_schema.is_some());
    assert!(contract.output_schema.is_none());
}

#[test]
fn contract_builder_no_io() {
    let contract = oc().route(Route::post("/ping")).build();

    assert!(contract.input_schema.is_none());
    assert!(contract.output_schema.is_none());
}

#[test]
fn contract_builder_output_only() {
    let contract = oc().output(Identity::<u32>::new()).route(Route::get("/o")).build();
    assert!(contract.input_schema.is_none());
    assert!(contract.output_schema.is_some());
    assert_eq!(contract.route.path.as_deref(), Some("/o"));
}

#[test]
fn route_can_be_set_at_any_stage() {
    let a = oc().route(Route::get("/a")).build();
    assert_eq!(a.route.path.as_deref(), Some("/a"));

    let b = oc().input(Identity::<String>::new()).route(Route::get("/b")).build();
    assert_eq!(b.route.path.as_deref(), Some("/b"));

    let c = oc().input(Identity::<String>::new()).output(Identity::<String>::new()).route(Route::get("/c")).build();
    assert_eq!(c.route.path.as_deref(), Some("/c"));
}
