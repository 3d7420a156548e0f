//! In-memory tree of a GraphQL query document, generic over how its text is
//! stored, with a verified mapping of that tree to canonical JSON text.
pub mod text;
pub mod value;
pub mod ast;
pub mod json;
pub mod query_json;
