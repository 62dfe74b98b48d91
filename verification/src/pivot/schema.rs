//! The root [`Schema`] of the pivot IR and its database-level companions.
use vstd::prelude::*;
use super::procedure::{Function, StoredProcedure, Trigger};
use super::table::{SpecTable, Table};
use super::types::ColumnType;
use super::view::{MaterializedView, SpecView};

verus! {

/// Target database engine.
#[derive(Debug, Clone, PartialEq)]
pub enum DatabaseKind {
    PostgreSql,
    MySql,
    MariaDb,
    Sqlite,
    MsSql,
    Oracle,
    CockroachDb,
    Custom(String),
}

/// Mathematical model of a [`DatabaseKind`].
pub enum SpecDatabaseKind {
    PostgreSql,
    MySql,
    MariaDb,
    Sqlite,
    MsSql,
    Oracle,
    CockroachDb,
    Custom(Seq<char>),
}

impl DeepView for DatabaseKind {
    type V = SpecDatabaseKind;

    open spec fn deep_view(&self) -> SpecDatabaseKind {
        match self {
            DatabaseKind::PostgreSql => SpecDatabaseKind::PostgreSql,
            DatabaseKind::MySql => SpecDatabaseKind::MySql,
            DatabaseKind::MariaDb => SpecDatabaseKind::MariaDb,
            DatabaseKind::Sqlite => SpecDatabaseKind::Sqlite,
            DatabaseKind::MsSql => SpecDatabaseKind::MsSql,
            DatabaseKind::Oracle => SpecDatabaseKind::Oracle,
            DatabaseKind::CockroachDb => SpecDatabaseKind::CockroachDb,
            DatabaseKind::Custom(s) => SpecDatabaseKind::Custom(s@),
        }
    }
}

/// A named schema within a database (PostgreSQL `schema`, MySQL `database`).
#[derive(Debug, Clone, PartialEq)]
pub struct DbSchema {
    pub name: String,
}

/// A database extension (e.g. PostgreSQL `uuid-ossp`, `postgis`, `pgcrypto`).
#[derive(Debug, Clone, PartialEq)]
pub struct Extension {
    pub name: String,
    pub version: Option<String>,
    /// Schema in which the extension is installed.
    pub schema: Option<String>,
}

/// A single value in a database [`Enum`].
#[derive(Debug, Clone, PartialEq)]
pub struct EnumValue {
    /// Logical name exposed by the ORM.
    pub name: String,
    /// Actual value stored in the database when it differs from `name`.
    pub db_name: Option<String>,
}

/// Mathematical model of an [`EnumValue`].
pub struct SpecEnumValue {
    pub name: Seq<char>,
    pub db_name: Option<Seq<char>>,
}

impl DeepView for EnumValue {
    type V = SpecEnumValue;

    open spec fn deep_view(&self) -> SpecEnumValue {
        SpecEnumValue { name: self.name@, db_name: self.db_name.deep_view() }
    }
}

/// A database enum type.
#[derive(Debug, Clone, PartialEq)]
pub struct Enum {
    pub name: String,
    pub db_name: Option<String>,
    pub db_schema: Option<String>,
    pub values: Vec<EnumValue>,
}

/// Mathematical model of an [`Enum`].
pub struct SpecEnum {
    pub name: Seq<char>,
    pub db_name: Option<Seq<char>>,
    pub db_schema: Option<Seq<char>>,
    pub values: Seq<SpecEnumValue>,
}

impl DeepView for Enum {
    type V = SpecEnum;

    open spec fn deep_view(&self) -> SpecEnum {
        SpecEnum {
            name: self.name@,
            db_name: self.db_name.deep_view(),
            db_schema: self.db_schema.deep_view(),
            values: self.values.deep_view(),
        }
    }
}

/// A field inside a PostgreSQL composite type.
#[derive(Debug, Clone, PartialEq)]
pub struct CompositeTypeField {
    pub name: String,
    pub field_type: ColumnType,
}

/// A PostgreSQL composite type — a named record type composed of typed fields.
#[derive(Debug, Clone, PartialEq)]
pub struct CompositeType {
    pub name: String,
    pub db_schema: Option<String>,
    pub fields: Vec<CompositeTypeField>,
}

/// A database sequence — an auto-incrementing integer generator.
#[derive(Debug, Clone, PartialEq)]
pub struct Sequence {
    pub name: String,
    pub db_schema: Option<String>,
    pub start: i64,
    pub increment: i64,
    pub min_value: Option<i64>,
    pub max_value: Option<i64>,
    /// Whether the sequence wraps around to `min_value` after reaching `max_value`.
    pub cycle: bool,
}

/// Root type of the pivot IR — the single source of truth for a database schema.
///
/// `pivot_version` tracks the IR format version independently of the tool's version.
#[derive(Debug, Clone, PartialEq)]
pub struct Schema {
    /// Semantic version of the pivot IR format itself.
    pub pivot_version: String,
    pub database: DatabaseKind,
    /// Optional version string for the target database engine (e.g. `"15.3"`).
    pub dialect_version: Option<String>,
    /// Named schemas (PostgreSQL) or databases (MySQL) within the instance.
    pub db_schemas: Vec<DbSchema>,
    /// Database extensions required by this schema.
    pub extensions: Vec<Extension>,
    pub tables: Vec<Table>,
    pub views: Vec<super::view::View>,
    pub materialized_views: Vec<MaterializedView>,
    pub enums: Vec<Enum>,
    pub composite_types: Vec<CompositeType>,
    pub sequences: Vec<Sequence>,
    pub functions: Vec<Function>,
    pub procedures: Vec<StoredProcedure>,
    pub triggers: Vec<Trigger>,
}

/// Mathematical model of a [`Schema`].
pub struct SpecSchema {
    pub pivot_version: Seq<char>,
    pub database: SpecDatabaseKind,
    pub dialect_version: Option<Seq<char>>,
    pub db_schemas: Seq<DbSchema>,
    pub extensions: Seq<Extension>,
    pub tables: Seq<SpecTable>,
    pub views: Seq<SpecView>,
    pub materialized_views: Seq<MaterializedView>,
    pub enums: Seq<SpecEnum>,
    pub composite_types: Seq<CompositeType>,
    pub sequences: Seq<Sequence>,
    pub functions: Seq<Function>,
    pub procedures: Seq<StoredProcedure>,
    pub triggers: Seq<Trigger>,
}

impl DeepView for Schema {
    type V = SpecSchema;

    open spec fn deep_view(&self) -> SpecSchema {
        SpecSchema {
            pivot_version: self.pivot_version@,
            database: self.database.deep_view(),
            dialect_version: self.dialect_version.deep_view(),
            db_schemas: self.db_schemas@,
            extensions: self.extensions@,
            tables: self.tables.deep_view(),
            views: self.views.deep_view(),
            materialized_views: self.materialized_views@,
            enums: self.enums.deep_view(),
            composite_types: self.composite_types@,
            sequences: self.sequences@,
            functions: self.functions@,
            procedures: self.procedures@,
            triggers: self.triggers@,
        }
    }
}

/// The empty schema for a database: IR format version `"1.0.0"`, no dialect
/// version and no objects of any kind.
pub open spec fn spec_empty_schema(database: SpecDatabaseKind) -> SpecSchema {
    SpecSchema {
        pivot_version: "1.0.0"@,
        database,
        dialect_version: None,
        db_schemas: Seq::empty(),
        extensions: Seq::empty(),
        tables: Seq::empty(),
        views: Seq::empty(),
        materialized_views: Seq::empty(),
        enums: Seq::empty(),
        composite_types: Seq::empty(),
        sequences: Seq::empty(),
        functions: Seq::empty(),
        procedures: Seq::empty(),
        triggers: Seq::empty(),
    }
}

impl Schema {
    /// Create an empty schema for the given database with `pivot_version = "1.0.0"`.
    pub fn new(database: DatabaseKind) -> (r: Self)
        ensures
            r.deep_view() == spec_empty_schema(database.deep_view()),
    {
        let r = Schema {
            pivot_version: String::from_str("1.0.0"),
            database,
            dialect_version: None,
            db_schemas: Vec::new(),
            extensions: Vec::new(),
            tables: Vec::new(),
            views: Vec::new(),
            materialized_views: Vec::new(),
            enums: Vec::new(),
            composite_types: Vec::new(),
            sequences: Vec::new(),
            functions: Vec::new(),
            procedures: Vec::new(),
            triggers: Vec::new(),
        };
        assert(r.tables.deep_view() =~= Seq::<SpecTable>::empty());
        assert(r.views.deep_view() =~= Seq::<SpecView>::empty());
        assert(r.enums.deep_view() =~= Seq::<SpecEnum>::empty());
        r
    }
}

} // verus!
