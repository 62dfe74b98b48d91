//! Tables, columns, indexes and constraints.
use vstd::prelude::*;
use super::metadata::{OrmMetadata, SpecOrmMetadata};
use super::relation::{ForeignKey, Relation, SpecForeignKey, SpecRelation};
use super::types::{ColumnType, DefaultValue, SpecColumnType, SpecDefaultValue};

verus! {

/// A single column in a table.
#[derive(Debug, Clone, PartialEq)]
pub struct Column {
    /// Logical name exposed by the ORM.
    pub name: String,
    /// Actual column name in the database when it differs from `name` (e.g. Prisma `@map`).
    pub db_name: Option<String>,
    pub col_type: ColumnType,
    pub nullable: bool,
    pub default: Option<DefaultValue>,
}

/// Mathematical model of a [`Column`].
pub struct SpecColumn {
    pub name: Seq<char>,
    pub db_name: Option<Seq<char>>,
    pub col_type: SpecColumnType,
    pub nullable: bool,
    pub default: Option<SpecDefaultValue>,
}

impl DeepView for Column {
    type V = SpecColumn;

    open spec fn deep_view(&self) -> SpecColumn {
        SpecColumn {
            name: self.name@,
            db_name: self.db_name.deep_view(),
            col_type: self.col_type.deep_view(),
            nullable: self.nullable,
            default: self.default.deep_view(),
        }
    }
}

/// Primary key constraint on a table.
#[derive(Debug, Clone, PartialEq)]
pub struct PrimaryKey {
    /// Constraint name as defined in the database schema.
    pub name: Option<String>,
    /// Ordered list of column names that form the primary key.
    pub columns: Vec<String>,
}

/// Mathematical model of a [`PrimaryKey`].
pub struct SpecPrimaryKey {
    pub name: Option<Seq<char>>,
    pub columns: Seq<Seq<char>>,
}

impl DeepView for PrimaryKey {
    type V = SpecPrimaryKey;

    open spec fn deep_view(&self) -> SpecPrimaryKey {
        SpecPrimaryKey { name: self.name.deep_view(), columns: self.columns.deep_view() }
    }
}

/// Sort direction for an index column.
#[derive(Debug, Clone, Copy, PartialEq, Eq)]
pub enum SortDirection {
    Asc,
    Desc,
}

/// Where NULL values appear relative to non-NULL values in an index.
#[derive(Debug, Clone, Copy, PartialEq, Eq)]
pub enum NullsPosition {
    First,
    Last,
}

/// A single column entry inside an [`Index`], with its sort options.
#[derive(Debug, Clone, PartialEq)]
pub struct IndexColumn {
    pub column: String,
    pub sort: SortDirection,
    pub nulls: Option<NullsPosition>,
}

/// Mathematical model of an [`IndexColumn`].
pub struct SpecIndexColumn {
    pub column: Seq<char>,
    pub sort: SortDirection,
    pub nulls: Option<NullsPosition>,
}

impl DeepView for IndexColumn {
    type V = SpecIndexColumn;

    open spec fn deep_view(&self) -> SpecIndexColumn {
        SpecIndexColumn { column: self.column@, sort: self.sort, nulls: self.nulls }
    }
}

/// Index access method used by the database engine.
#[derive(Debug, Clone, PartialEq)]
pub enum IndexType {
    /// Default B-tree index.
    BTree,
    /// Hash index — equality-only.
    Hash,
    /// PostgreSQL GIN — inverted index.
    Gin,
    /// PostgreSQL GiST — generalized search tree.
    Gist,
    /// PostgreSQL BRIN — block range index.
    Brin,
    /// PostgreSQL SP-GiST — space-partitioned generalized search tree.
    SpGist,
    Custom { name: String },
}

/// Mathematical model of an [`IndexType`].
pub enum SpecIndexType {
    BTree,
    Hash,
    Gin,
    Gist,
    Brin,
    SpGist,
    Custom { name: Seq<char> },
}

impl DeepView for IndexType {
    type V = SpecIndexType;

    open spec fn deep_view(&self) -> SpecIndexType {
        match self {
            IndexType::BTree => SpecIndexType::BTree,
            IndexType::Hash => SpecIndexType::Hash,
            IndexType::Gin => SpecIndexType::Gin,
            IndexType::Gist => SpecIndexType::Gist,
            IndexType::Brin => SpecIndexType::Brin,
            IndexType::SpGist => SpecIndexType::SpGist,
            IndexType::Custom { name } => SpecIndexType::Custom { name: name@ },
        }
    }
}

/// A database index on one or more columns of a table.
#[derive(Debug, Clone, PartialEq)]
pub struct Index {
    pub name: Option<String>,
    pub columns: Vec<IndexColumn>,
    pub unique: bool,
    /// SQL `WHERE` clause for a partial index.
    pub partial: Option<String>,
    pub index_type: Option<IndexType>,
    /// Additional columns included in the index leaf pages (PostgreSQL `INCLUDE`).
    pub included: Vec<String>,
}

/// Mathematical model of an [`Index`].
pub struct SpecIndex {
    pub name: Option<Seq<char>>,
    pub columns: Seq<SpecIndexColumn>,
    pub unique: bool,
    pub partial: Option<Seq<char>>,
    pub index_type: Option<SpecIndexType>,
    pub included: Seq<Seq<char>>,
}

impl DeepView for Index {
    type V = SpecIndex;

    open spec fn deep_view(&self) -> SpecIndex {
        SpecIndex {
            name: self.name.deep_view(),
            columns: self.columns.deep_view(),
            unique: self.unique,
            partial: self.partial.deep_view(),
            index_type: self.index_type.deep_view(),
            included: self.included.deep_view(),
        }
    }
}

/// Unique constraint on a set of columns.
#[derive(Debug, Clone, PartialEq)]
pub struct UniqueConstraint {
    pub name: Option<String>,
    pub columns: Vec<String>,
}

/// Mathematical model of a [`UniqueConstraint`].
pub struct SpecUniqueConstraint {
    pub name: Option<Seq<char>>,
    pub columns: Seq<Seq<char>>,
}

impl DeepView for UniqueConstraint {
    type V = SpecUniqueConstraint;

    open spec fn deep_view(&self) -> SpecUniqueConstraint {
        SpecUniqueConstraint { name: self.name.deep_view(), columns: self.columns.deep_view() }
    }
}

/// Check constraint — a boolean SQL expression that every row must satisfy.
#[derive(Debug, Clone, PartialEq)]
pub struct CheckConstraint {
    pub name: Option<String>,
    /// SQL boolean expression evaluated for each row on insert and update.
    pub expression: String,
}

/// Common ORM behavioral patterns modeled as first-class IR concepts.
#[derive(Debug, Clone, PartialEq)]
pub enum Behavior {
    /// Soft-delete pattern — rows are marked deleted rather than physically removed.
    SoftDelete { column: String },
    /// Column automatically set to the current timestamp on insert.
    CreatedAt { column: String },
    /// Column automatically updated to the current timestamp on every update.
    UpdatedAt { column: String },
    /// Optimistic locking version column.
    Versioning { column: String },
}

/// Mathematical model of a [`Behavior`].
pub enum SpecBehavior {
    SoftDelete { column: Seq<char> },
    CreatedAt { column: Seq<char> },
    UpdatedAt { column: Seq<char> },
    Versioning { column: Seq<char> },
}

impl DeepView for Behavior {
    type V = SpecBehavior;

    open spec fn deep_view(&self) -> SpecBehavior {
        match self {
            Behavior::SoftDelete { column } => SpecBehavior::SoftDelete { column: column@ },
            Behavior::CreatedAt { column } => SpecBehavior::CreatedAt { column: column@ },
            Behavior::UpdatedAt { column } => SpecBehavior::UpdatedAt { column: column@ },
            Behavior::Versioning { column } => SpecBehavior::Versioning { column: column@ },
        }
    }
}

/// Table inheritance strategy.
#[derive(Debug, Clone, PartialEq)]
pub enum Inheritance {
    SingleTable {
        discriminator_column: String,
        /// Value in the discriminator column that identifies rows of this class.
        discriminator_value: Option<String>,
    },
    TablePerClass { parent_table: Option<String> },
    ConcreteTable { parent_table: Option<String> },
}

/// A database table — the central node of the pivot IR.
#[derive(Debug, Clone, PartialEq)]
pub struct Table {
    /// Logical name as exposed by the ORM.
    pub name: String,
    /// Actual table name in the database when it differs from `name` (e.g. Prisma `@@map`).
    pub db_name: Option<String>,
    /// PostgreSQL schema (or MySQL database) that owns this table.
    pub db_schema: Option<String>,
    pub columns: Vec<Column>,
    pub primary_key: Option<PrimaryKey>,
    pub indexes: Vec<Index>,
    pub unique_constraints: Vec<UniqueConstraint>,
    pub check_constraints: Vec<CheckConstraint>,
    /// Database-level foreign key constraints.
    pub foreign_keys: Vec<ForeignKey>,
    /// ORM-level relations.
    pub relations: Vec<Relation>,
    pub inheritance: Option<Inheritance>,
    pub behaviors: Vec<Behavior>,
    pub metadata: OrmMetadata,
}

/// Mathematical model of a [`Table`].
pub struct SpecTable {
    pub name: Seq<char>,
    pub db_name: Option<Seq<char>>,
    pub db_schema: Option<Seq<char>>,
    pub columns: Seq<SpecColumn>,
    pub primary_key: Option<SpecPrimaryKey>,
    pub indexes: Seq<SpecIndex>,
    pub unique_constraints: Seq<SpecUniqueConstraint>,
    pub check_constraints: Seq<CheckConstraint>,
    pub foreign_keys: Seq<SpecForeignKey>,
    pub relations: Seq<SpecRelation>,
    pub inheritance: Option<Inheritance>,
    pub behaviors: Seq<SpecBehavior>,
    pub metadata: SpecOrmMetadata,
}

impl DeepView for Table {
    type V = SpecTable;

    open spec fn deep_view(&self) -> SpecTable {
        SpecTable {
            name: self.name@,
            db_name: self.db_name.deep_view(),
            db_schema: self.db_schema.deep_view(),
            columns: self.columns.deep_view(),
            primary_key: self.primary_key.deep_view(),
            indexes: self.indexes.deep_view(),
            unique_constraints: self.unique_constraints.deep_view(),
            check_constraints: self.check_constraints@,
            foreign_keys: self.foreign_keys.deep_view(),
            relations: self.relations.deep_view(),
            inheritance: self.inheritance,
            behaviors: self.behaviors.deep_view(),
            metadata: self.metadata.deep_view(),
        }
    }
}

} // verus!
