//! A typed client core for the Open Library bibliographic API.
//!
//! This crate holds the data model and the parsing, normalization and
//! decoding rules for the identifiers and payload shapes that the API
//! returns: compact `"ACRONYM:value"` identifiers, `/resource/id` path
//! identifiers, polymorphic JSON fields, the success/error response
//! envelope, and the fixed date formats of the reading-log endpoints.
//! HTTP transport lives outside this crate.

use vstd::prelude::*;

verus! {

/// A server-side error payload: the body of an error envelope.
#[derive(Clone, Debug)]
pub struct OpenLibraryErrorResponse {
    pub error: String,
}

/// Failures of the identifier parsers and of the field normalizers.
#[derive(Clone, Debug)]
pub enum ParseError {
    /// A compact or path identifier did not have the required shape.
    MalformedIdentifier { raw: String },
    /// A wire token did not name any supported identifier key.
    UnknownIdentifierKey { token: String },
    /// The acronym of a compact identifier is not one of the supported keys.
    UnsupportedBibliographyKey { acronym: String },
    /// The first segment of a path identifier named no known resource.
    UnknownResourceType { segment: String },
    /// A polymorphic field matched none of its candidate shapes.
    UnrecognizedFieldShape { field: String, raw_snippet: String },
}

/// A payload that failed to match the expected schema after the envelope
/// discriminator had already selected a branch.
#[derive(Clone, Debug)]
pub struct JsonDecodeError {
    pub field: String,
}

/// Failures while decoding a JSON document into a typed entity.
#[derive(Clone, Debug)]
pub enum DecodeError {
    /// An identifier or a polymorphic field inside the document was bad.
    Parse(ParseError),
    /// The document did not structurally match the schema.
    Json(JsonDecodeError),
}

/// The application-level error taxonomy, mirrored on plain values.
#[derive(Clone, Debug)]
pub enum OpenLibraryError {
    /// A non-success HTTP status, optionally with the decoded server message.
    ApiError { status_code: u16, error: Option<OpenLibraryErrorResponse> },
    /// The HTTP client could not be constructed.
    ClientBuildingError { reason: String },
    /// An invariant of this crate was broken.
    InternalError { reason: String },
    /// A response body was not the JSON document the endpoint promises.
    JsonParseError { reason: String },
    /// An operation that needs a session was invoked without one.
    NotAuthenticated { reason: String },
    /// An identifier or field value could not be parsed.
    ParsingError { reason: String },
    /// The HTTP request itself failed.
    RequestFailed { reason: String },
}

} // verus!

pub mod format;
pub mod json;
pub mod models;
pub mod text;
pub mod urls;
