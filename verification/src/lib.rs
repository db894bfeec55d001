//! Typed schema layer for a column-oriented time-series data model.
//!
//! A [`Schema`] wraps a generic columnar schema and reads from its metadata
//! which role each column plays: tag, field of some kind, or timestamp.
//! Construction validates the generic schema; merging and sorting give new
//! schemas, or the schema itself where nothing changes.
//!
//! The generic schema is Arrow's. What is assumed of it is stated in
//! [`generic`]; everything else is proved.
pub mod column_type;
pub mod error;
pub mod generic;
pub mod laws;
pub mod merge;
pub mod order;
pub mod parts;
pub mod physical;
pub mod schema;
pub mod search;
pub mod text;

pub use column_type::InfluxColumnType;
pub use column_type::InfluxFieldType;
pub use error::Error;
pub use physical::PhysicalType;
pub use schema::Schema;
pub use schema::SchemaIter;
pub use schema::TIME_COLUMN_NAME;
