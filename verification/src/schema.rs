use vstd::prelude::*;
use std::marker::PhantomData;
use crate::json::{Json, JsonV, lemma_object_view, members_view};
use crate::error::ORPCError;

verus! {

/// Type-erased schema of a procedure's input or output, kept for OpenAPI
/// generation.
pub trait ErasedSchema: Send + Sync + 'static {
    /// The JSON Schema this schema stands for.
    fn json_schema(&self) -> Json;
}

/// Placeholder for procedures without a schema.
pub struct NoSchema;

impl ErasedSchema for NoSchema {
    /// `null`: no schema.
    fn json_schema(&self) -> (j: Json)
        ensures
            j@ == JsonV::Null,
    {
        Json::Null
    }
}

/// Validation and JSON Schema of a procedure's input or output type.
pub trait Schema: Send + Sync + 'static {
    type Input;
    type Output;

    /// Validates and transforms an input.
    fn validate(&self, input: Self::Input) -> Result<Self::Output, ORPCError>;

    /// The JSON Schema of the type (for OpenAPI generation).
    fn json_schema(&self) -> Json;

    /// `true` when validation hands every input back unchanged; a schema
    /// that does not say so is taken not to be one.
    fn is_passthrough(&self) -> (r: bool)
        default_ensures
            !r,
    {
        false
    }
}

/// The empty JSON object, the schema that accepts anything.
fn any_schema() -> (j: Json)
    ensures
        j@ == JsonV::Object(Seq::empty()),
{
    let ms: Vec<(String, Json)> = Vec::new();
    proof {
        lemma_object_view(ms);
        assert(members_view(ms@) =~= Seq::<(Seq<char>, JsonV)>::empty());
    }
    Json::Object(ms)
}

/// Pass-through schema: no validation, no transformation.
pub struct Identity<T>(PhantomData<T>);

impl<T> Identity<T> {
    /// The pass-through schema for `T`.
    pub fn new() -> Self {
        Identity(PhantomData)
    }
}

impl<T> Default for Identity<T> {
    fn default() -> Self {
        Identity::new()
    }
}

impl<T: Send + Sync + 'static> Schema for Identity<T> {
    type Input = T;
    type Output = T;

    /// Every input is valid and comes back unchanged.
    fn validate(&self, input: T) -> (r: Result<T, ORPCError>)
        ensures
            r == Ok::<T, ORPCError>(input),
    {
        Ok(input)
    }

    /// `{}`: any value.
    fn json_schema(&self) -> (j: Json)
        ensures
            j@ == JsonV::Object(Seq::empty()),
    {
        any_schema()
    }
}

/// A typed [`Schema`] seen as an [`ErasedSchema`].
pub struct SchemaAdapter<S: Schema>(pub S);

impl<S: Schema> ErasedSchema for SchemaAdapter<S> {
    /// The JSON Schema of the wrapped schema, as its `json_schema` gives it.
    fn json_schema(&self) -> (j: Json)
        ensures
            call_ensures(S::json_schema, (&self.0,), j),
    {
        self.0.json_schema()
    }
}

/// Schema for types that carry a TypeScript type description: every input is
/// valid and comes back unchanged.
pub struct SpectaSchemaWrapper<T>(PhantomData<T>);

impl<T> SpectaSchemaWrapper<T> {
    /// The schema for `T`.
    pub fn new() -> Self {
        SpectaSchemaWrapper(PhantomData)
    }
}

impl<T> Default for SpectaSchemaWrapper<T> {
    fn default() -> Self {
        SpectaSchemaWrapper::new()
    }
}

impl<T: Send + Sync + 'static> Schema for SpectaSchemaWrapper<T> {
    type Input = T;
    type Output = T;

    /// Every input is valid and comes back unchanged.
    fn validate(&self, input: T) -> (r: Result<T, ORPCError>)
        ensures
            r == Ok::<T, ORPCError>(input),
    {
        Ok(input)
    }

    /// `{}`: any value.
    fn json_schema(&self) -> (j: Json)
        ensures
            j@ == JsonV::Object(Seq::empty()),
    {
        any_schema()
    }

    /// Always `true`.
    fn is_passthrough(&self) -> (r: bool)
        ensures
            r,
    {
        true
    }
}

/// A [`SpectaSchemaWrapper`] for `T`.
pub fn specta<T>() -> SpectaSchemaWrapper<T> {
    SpectaSchemaWrapper::new()
}

} // verus!
