//! A schema-driven validation engine for structured genomic records.
//!
//! A raw schema is first checked against the meta-schema ([`validate_schema`]),
//! then compiled ([`compile`]) into an immutable [`CompiledValidator`], which
//! evaluates candidate documents and returns every violation it finds in one
//! pass, in traversal order.

pub mod compile;
pub mod meta;
pub mod formats;
pub mod json;
pub mod patterns;
pub mod schema;
pub mod validate;

pub use compile::compile;
pub use formats::check_ensembl_gene_id;
pub use formats::check_variant_id;
pub use json::Json;
pub use json::json_eq;
pub use meta::validate_schema;
pub use json::JsonV;
pub use json::Number;
pub use compile::CompileError;
pub use meta::MetaSchemaError;
pub use schema::FormatId;
pub use schema::SchemaNode;
pub use schema::SchemaV;
pub use schema::UnknownPolicy;
pub use validate::CompiledValidator;
pub use validate::PathSeg;
pub use validate::Violation;
pub use validate::ViolationKind;
