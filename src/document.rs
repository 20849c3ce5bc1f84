//! The parts of a specification document that extraction reads.
//!
//! Each type mirrors one shape of an OpenAPI document, holding plain values
//! only; a loader builds it from the parsed document.

use vstd::prelude::*;

verus! {

/// A value given inline, or a `$ref` string pointing elsewhere.
#[derive(Debug)]
pub enum RefOr<T> {
    Reference(String),
    Item(T),
}

/// A schema, reduced to the shapes that extraction distinguishes.
#[derive(Debug)]
pub enum Schema {
    StringType,
    Number,
    Integer,
    Boolean,
    /// An array; `None` when the document gives no item schema.
    Array(Option<Box<RefOr<Schema>>>),
    /// An object with named properties and the names it requires.
    Object { properties: Vec<(String, RefOr<Schema>)>, required: Vec<String> },
    /// A union, intersection, negation or untyped schema.
    Composite,
}

/// Where a parameter is read from.
#[derive(Debug, Clone, Copy, PartialEq, Eq, Structural)]
pub enum ParameterLocation {
    Query,
    Path,
    Header,
    Cookie,
}

/// A parameter's format: a schema, or media-typed content.
#[derive(Debug)]
pub enum ParameterFormat {
    Schema(RefOr<Schema>),
    Content,
}

#[derive(Debug)]
pub struct Parameter {
    pub location: ParameterLocation,
    pub name: String,
    pub required: bool,
    pub format: ParameterFormat,
}

/// A response: the schema of each of its media types, in declared order.
#[derive(Debug)]
pub struct Response {
    pub content: Vec<Option<RefOr<Schema>>>,
}

#[derive(Debug)]
pub struct Responses {
    /// The response under the "default" status.
    pub default: Option<RefOr<Response>>,
    /// The other responses, in declared order.
    pub responses: Vec<RefOr<Response>>,
}

#[derive(Debug)]
pub struct Operation {
    pub parameters: Vec<RefOr<Parameter>>,
    pub responses: Responses,
}

#[derive(Debug)]
pub struct PathItem {
    pub get: Option<Operation>,
    pub post: Option<Operation>,
    pub put: Option<Operation>,
    pub delete: Option<Operation>,
    pub options: Option<Operation>,
    pub head: Option<Operation>,
    pub patch: Option<Operation>,
    pub trace: Option<Operation>,
}

/// A specification document.
#[derive(Debug)]
pub struct Document {
    /// The URL of each server, in declared order.
    pub servers: Vec<String>,
    /// The named schemas of the components section, in declared order.
    pub schemas: Vec<(String, RefOr<Schema>)>,
    /// Each path with its item, in declared order.
    pub paths: Vec<(String, RefOr<PathItem>)>,
}

} // verus!
