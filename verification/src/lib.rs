//! Data model, validation and editing operations of an OpenAPI specification editor.
pub mod text;
pub mod ordered_map;
pub mod json;
pub mod model;
pub mod lint;
pub mod editor;
pub mod yaml;
pub mod codec;
pub mod resource;
pub mod crud;
pub mod search;
pub mod highlight;
pub mod schema_edit;
pub mod operation_edit;
pub mod doc_edit;
pub mod document;
pub mod laws;
pub mod lint_laws;
