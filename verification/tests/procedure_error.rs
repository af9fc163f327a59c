use orpc::error::{ErrorCode, ORPCError};
use orpc::procedure_error::{
    procedure_error_to_orpc_error, DeserializeError, ProcedureError, ResolverError, SerializeError,
};

#[test]
fn deserialize_error_display() {
    let err = DeserializeError("bad input".to_string());
    assert_eq!(err.to_string(), "bad input");
}

#[test]
fn serialize_error_display() {
    let err = SerializeError("write failed".to_string());
    assert_eq!(err.to_string(), "write failed");
}

#[test]
fn procedure_error_deserialize_variant() {
    let err = ProcedureError::Deserialize(DeserializeError("bad json".to_string()));
    assert!(err.to_string().contains("deserialization error"));
    assert!(err.to_string().contains("bad json"));
    assert!(err.source().is_some());
}

#[test]
fn procedure_error_serialize_variant() {
    let err = ProcedureError::Serialize(SerializeError("encode failed".to_string()));
    assert!(err.to_string().contains("serialization error"));
    assert!(err.source().is_some());
}

#[test]
fn procedure_error_unwind_variant() {
    let err = ProcedureError::Unwind("panic message".to_string());
    assert_eq!(err.to_string(), "handler panicked");
    assert!(err.source().is_none());
}

#[test]
fn procedure_error_resolver_variant() {
    let err = ProcedureError::Resolver(ResolverError::Other("user not found".to_string()));
    assert_eq!(err.to_string(), "user not found");
    assert!(err.source().is_some());
}

#[test]
fn from_deserialize_error() {
    let de_err = DeserializeError("test".to_string());
    let proc_err: ProcedureError = de_err.into();
    assert!(matches!(proc_err, ProcedureError::Deserialize(_)));
}

#[test]
fn from_serialize_error() {
    let se_err = SerializeError("test".to_string());
    let proc_err: ProcedureError = se_err.into();
    assert!(matches!(proc_err, ProcedureError::Serialize(_)));
}

#[test]
fn error_mapping_resolver_orpc_error() {
    let orpc_err = ORPCError::not_found("gone");
    let proc_err = ProcedureError::Resolver(ResolverError::Orpc(orpc_err));
    let result = procedure_error_to_orpc_error(proc_err);
    assert_eq!(result.code, ErrorCode::NotFound);
    assert_eq!(result.message, "gone");
}

#[test]
fn error_mapping_resolver_unknown() {
    let proc_err = ProcedureError::Resolver(ResolverError::Other("unknown".to_string()));
    let result = procedure_error_to_orpc_error(proc_err);
    assert_eq!(result.code, ErrorCode::InternalServerError);
}

#[test]
fn error_mapping_deserialize() {
    let msg = serde_json::from_str::<String>("bad").unwrap_err().to_string();
    let proc_err = ProcedureError::Deserialize(DeserializeError(msg.clone()));
    let result = procedure_error_to_orpc_error(proc_err);
    assert_eq!(result.code, ErrorCode::BadRequest);
    assert_eq!(result.message, format!("Bad request: {msg}"));
    assert_eq!(result.status, 400);
}

#[test]
fn error_mapping_unwind() {
    let proc_err = ProcedureError::Unwind("panic".to_string());
    let result = procedure_error_to_orpc_error(proc_err);
    assert_eq!(result.code, ErrorCode::InternalServerError);
}

#[test]
fn error_mapping_serialize_message() {
    let proc_err = ProcedureError::Serialize(SerializeError("x".to_string()));
    let result = procedure_error_to_orpc_error(proc_err);
    assert_eq!(result.code, ErrorCode::InternalServerError);
    assert_eq!(result.message, "Response serialization failed");
    assert_eq!(result.status, 500);
    assert!(!result.defined);
}

#[test]
fn orpc_error_into_procedure_error() {
    let err = ORPCError::not_found("gone");
    let proc_err: ProcedureError = err.into();
    assert!(matches!(proc_err, ProcedureError::Resolver(_)));
}

#[test]
fn resolver_text_of_orpc_error() {
    let err = ProcedureError::Resolver(ResolverError::Orpc(ORPCError::unauthorized("Missing token")));
    assert_eq!(err.to_string(), "[UNAUTHORIZED] Missing token");
    assert_eq!(err.source(), Some("[UNAUTHORIZED] Missing token".to_string()));
}
