//! Pivot IR — the intermediate representation at the heart of the converter.
//!
//! Every importer produces a [`Schema`]; every exporter consumes one. The IR
//! has a database layer (tables, views, enums, sequences, functions, ...) and
//! an ORM layer (relations, behaviors, inheritance, metadata).
pub mod metadata;
pub mod procedure;
pub mod relation;
pub mod table;
pub mod types;
pub mod view;
pub mod schema;

pub use metadata::{OrmKind, OrmMetadata, UnknownFeature};
pub use procedure::{Function, StoredProcedure, Trigger};
pub use relation::{ForeignKey, Relation};
pub use table::{Column, Index, Table};
pub use types::{ColumnType, DefaultValue, ScalarType};
pub use view::MaterializedView;
pub use schema::{
    spec_empty_schema,
    CompositeType, CompositeTypeField, DatabaseKind, DbSchema, Enum, EnumValue, Extension,
    Schema, Sequence, SpecDatabaseKind, SpecEnum, SpecEnumValue, SpecSchema,
};
