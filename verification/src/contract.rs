use vstd::prelude::*;
use std::marker::PhantomData;
use crate::error::ORPCError;
use crate::route::{Route, Meta, ErrorMap, route_is_blank};
use crate::schema::{ErasedSchema, Schema, SchemaAdapter};

verus! {

/// A context: any value handlers and middleware can share across tasks.
pub trait Context: Send + Sync + 'static {}

impl<T: Send + Sync + 'static> Context for T {}

/// A contract procedure: route, metadata and the schemas of input and output,
/// with the input, output and error types carried as type parameters.
pub struct ContractProcedure<TInput = (), TOutput = (), TError = ORPCError> {
    pub input_schema: Option<Box<dyn ErasedSchema>>,
    pub output_schema: Option<Box<dyn ErasedSchema>>,
    pub error_map: ErrorMap,
    pub route: Route,
    pub meta: Meta,
    pub _phantom: PhantomData<(TInput, TOutput, TError)>,
}

/// Contract builder with neither input nor output set.
pub struct ContractBuilder {
    error_map: ErrorMap,
    route: Route,
    meta: Meta,
}

/// A new contract builder, with no route metadata.
pub fn oc() -> (b: ContractBuilder)
    ensures
        route_is_blank(b.current_route()),
{
    ContractBuilder { error_map: ErrorMap {}, route: Route::new(), meta: Meta {} }
}

impl ContractBuilder {
    /// The route metadata set so far.
    pub closed spec fn current_route(&self) -> Route {
        self.route
    }

    /// Sets the route metadata.
    pub fn route(self, route: Route) -> (b: ContractBuilder)
        ensures
            b.current_route() == route,
    {
        ContractBuilder { error_map: self.error_map, route, meta: self.meta }
    }

    /// Sets the output schema (and no input).
    pub fn output<S: Schema>(self, schema: S) -> (b: ContractBuilderWithOutput<S::Output>)
        ensures
            b.current_route() == self.current_route(),
    {
        ContractBuilderWithOutput {
            error_map: self.error_map,
            route: self.route,
            meta: self.meta,
            output_schema: Box::new(SchemaAdapter(schema)),
            _phantom: PhantomData,
        }
    }

    /// Sets the input schema.
    pub fn input<S: Schema>(self, schema: S) -> (b: ContractBuilderWithInput<S::Output>)
        ensures
            b.current_route() == self.current_route(),
    {
        ContractBuilderWithInput {
            error_map: self.error_map,
            route: self.route,
            meta: self.meta,
            input_schema: Box::new(SchemaAdapter(schema)),
            _phantom: PhantomData,
        }
    }

    /// A contract without input or output schema.
    pub fn build(self) -> (c: ContractProcedure<(), (), ORPCError>)
        ensures
            c.input_schema is None,
            c.output_schema is None,
            c.route == self.current_route(),
    {
        ContractProcedure {
            input_schema: None,
            output_schema: None,
            error_map: self.error_map,
            route: self.route,
            meta: self.meta,
            _phantom: PhantomData,
        }
    }
}

/// Contract builder with an output schema and no input.
pub struct ContractBuilderWithOutput<TOutput> {
    error_map: ErrorMap,
    route: Route,
    meta: Meta,
    output_schema: Box<dyn ErasedSchema>,
    _phantom: PhantomData<TOutput>,
}

impl<TOutput> ContractBuilderWithOutput<TOutput> {
    /// The route metadata set so far.
    pub closed spec fn current_route(&self) -> Route {
        self.route
    }

    /// Sets the route metadata.
    pub fn route(self, route: Route) -> (b: ContractBuilderWithOutput<TOutput>)
        ensures
            b.current_route() == route,
    {
        ContractBuilderWithOutput {
            error_map: self.error_map,
            route,
            meta: self.meta,
            output_schema: self.output_schema,
            _phantom: PhantomData,
        }
    }

    /// A contract with an output schema and no input schema.
    pub fn build(self) -> (c: ContractProcedure<(), TOutput, ORPCError>)
        ensures
            c.input_schema is None,
            c.output_schema is Some,
            c.route == self.current_route(),
    {
        ContractProcedure {
            input_schema: None,
            output_schema: Some(self.output_schema),
            error_map: self.error_map,
            route: self.route,
            meta: self.meta,
            _phantom: PhantomData,
        }
    }
}

/// Contract builder with an input schema.
pub struct ContractBuilderWithInput<TInput> {
    error_map: ErrorMap,
    route: Route,
    meta: Meta,
    input_schema: Box<dyn ErasedSchema>,
    _phantom: PhantomData<TInput>,
}

impl<TInput> ContractBuilderWithInput<TInput> {
    /// The route metadata set so far.
    pub closed spec fn current_route(&self) -> Route {
        self.route
    }

    /// Sets the route metadata.
    pub fn route(self, route: Route) -> (b: ContractBuilderWithInput<TInput>)
        ensures
            b.current_route() == route,
    {
        ContractBuilderWithInput {
            error_map: self.error_map,
            route,
            meta: self.meta,
            input_schema: self.input_schema,
            _phantom: PhantomData,
        }
    }

    /// Sets the output schema.
    pub fn output<S: Schema>(self, schema: S) -> (b: ContractBuilderWithIO<TInput, S::Output>)
        ensures
            b.current_route() == self.current_route(),
    {
        ContractBuilderWithIO {
            error_map: self.error_map,
            route: self.route,
            meta: self.meta,
            input_schema: self.input_schema,
            output_schema: Box::new(SchemaAdapter(schema)),
            _phantom: PhantomData,
        }
    }

    /// A contract with an input schema and no output schema.
    pub fn build(self) -> (c: ContractProcedure<TInput, (), ORPCError>)
        ensures
            c.input_schema is Some,
            c.output_schema is None,
            c.route == self.current_route(),
    {
        ContractProcedure {
            input_schema: Some(self.input_schema),
            output_schema: None,
            error_map: self.error_map,
            route: self.route,
            meta: self.meta,
            _phantom: PhantomData,
        }
    }
}

/// Contract builder with both an input and an output schema.
pub struct ContractBuilderWithIO<TInput, TOutput> {
    error_map: ErrorMap,
    route: Route,
    meta: Meta,
    input_schema: Box<dyn ErasedSchema>,
    output_schema: Box<dyn ErasedSchema>,
    _phantom: PhantomData<(TInput, TOutput)>,
}

impl<TInput, TOutput> ContractBuilderWithIO<TInput, TOutput> {
    /// The route metadata set so far.
    pub closed spec fn current_route(&self) -> Route {
        self.route
    }

    /// Sets the route metadata.
    pub fn route(self, route: Route) -> (b: ContractBuilderWithIO<TInput, TOutput>)
        ensures
            b.current_route() == route,
    {
        ContractBuilderWithIO {
            error_map: self.error_map,
            route,
            meta: self.meta,
            input_schema: self.input_schema,
            output_schema: self.output_schema,
            _phantom: PhantomData,
        }
    }

    /// A contract with both schemas.
    pub fn build(self) -> (c: ContractProcedure<TInput, TOutput, ORPCError>)
        ensures
            c.input_schema is Some,
            c.output_schema is Some,
            c.route == self.current_route(),
    {
        ContractProcedure {
            input_schema: Some(self.input_schema),
            output_schema: Some(self.output_schema),
            error_map: self.error_map,
            route: self.route,
            meta: self.meta,
            _phantom: PhantomData,
        }
    }
}

} // verus!
