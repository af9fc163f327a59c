use orpc::service::{extract_procedures, to_snake_case, MethodShape, ParamKind, ProcedureInfo, ReturnKind, ShapeError};
use orpc::service::ParamKind::{Receiver, Typed};

#[test]
fn snake_case_of_type_names() {
    assert_eq!(to_snake_case("PlanetApi"), "planet_api");
    assert_eq!(to_snake_case("HTTPServer"), "h_t_t_p_server");
    assert_eq!(to_snake_case("already_snake"), "already_snake");
    assert_eq!(to_snake_case(""), "");
}

fn shape(name: &str, params: Vec<ParamKind>, returns: ReturnKind) -> MethodShape {
    MethodShape { name: name.to_string(), params, returns }
}

fn typed(t: &str) -> ParamKind {
    Typed(t.to_string())
}

fn result(t: &str) -> ReturnKind {
    ReturnKind::Result(t.to_string())
}

fn info(name: &str, input: Option<&str>, output: &str) -> ProcedureInfo {
    ProcedureInfo {
        method_name: name.to_string(),
        input_type: input.map(|t| t.to_string()),
        output_type: output.to_string(),
    }
}

#[test]
fn service_methods_checked() {
    let ok = vec![
        shape("ping", vec![Receiver, typed("AppCtx")], result("String")),
        shape("find_planet", vec![Receiver, typed("AppCtx"), typed("String")], result("Planet")),
    ];
    assert_eq!(
        extract_procedures(&ok).unwrap(),
        vec![info("ping", None, "String"), info("find_planet", Some("String"), "Planet")]
    );
    let cases = [
        (shape("a", vec![], result("u32")), ShapeError::NoSelf),
        (shape("a", vec![typed("A"), typed("B")], result("u32")), ShapeError::FirstNotSelf),
        (shape("a", vec![Receiver], result("u32")), ShapeError::NoContext),
        (shape("a", vec![Receiver, typed("A")], ReturnKind::Default), ShapeError::NoReturnType),
        (shape("a", vec![Receiver, typed("A")], ReturnKind::Other), ShapeError::NotResult),
    ];
    for (bad, expected) in cases {
        let methods = vec![shape("ok", vec![Receiver, typed("A")], result("u32")), bad];
        assert_eq!(extract_procedures(&methods).unwrap_err(), (1, expected));
    }
    assert_eq!(ShapeError::NoSelf.message(), "method must have &self as first parameter");
    assert_eq!(ShapeError::NotResult.message(), "return type must be Result<T, ORPCError>");
}
