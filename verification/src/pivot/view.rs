//! Views and materialized views.
use vstd::prelude::*;
use super::metadata::{OrmMetadata, SpecOrmMetadata};
use super::table::Index;

verus! {

/// A typed column descriptor for a view.
#[derive(Debug, Clone, PartialEq)]
pub struct ViewColumn {
    pub name: String,
    /// Actual column name in the view definition when it differs from `name`.
    pub db_name: Option<String>,
}

/// Mathematical model of a [`ViewColumn`].
pub struct SpecViewColumn {
    pub name: Seq<char>,
    pub db_name: Option<Seq<char>>,
}

impl DeepView for ViewColumn {
    type V = SpecViewColumn;

    open spec fn deep_view(&self) -> SpecViewColumn {
        SpecViewColumn { name: vstd::view::View::view(&self.name), db_name: self.db_name.deep_view() }
    }
}

/// Refresh strategy for a [`MaterializedView`].
#[derive(Debug, Clone, Copy, PartialEq, Eq)]
pub enum RefreshStrategy {
    /// Refresh must be triggered explicitly.
    Manual,
    /// PostgreSQL `CONCURRENTLY` — refreshes without locking reads.
    Concurrent,
    /// Full recomputation — locks the view during refresh.
    Complete,
}

/// A database view — a named SQL query stored in the database.
#[derive(Debug, Clone, PartialEq)]
pub struct View {
    pub name: String,
    pub db_name: Option<String>,
    /// PostgreSQL schema (or MySQL database) that owns this view.
    pub db_schema: Option<String>,
    /// SQL `SELECT` statement that defines the view.
    pub definition: String,
    pub columns: Vec<ViewColumn>,
    /// Whether the view supports `INSERT` and `UPDATE` statements.
    pub updatable: bool,
    pub metadata: OrmMetadata,
}

/// Mathematical model of a [`View`].
pub struct SpecView {
    pub name: Seq<char>,
    pub db_name: Option<Seq<char>>,
    pub db_schema: Option<Seq<char>>,
    pub definition: Seq<char>,
    pub columns: Seq<SpecViewColumn>,
    pub updatable: bool,
    pub metadata: SpecOrmMetadata,
}

impl DeepView for View {
    type V = SpecView;

    open spec fn deep_view(&self) -> SpecView {
        SpecView {
            name: vstd::view::View::view(&self.name),
            db_name: self.db_name.deep_view(),
            db_schema: self.db_schema.deep_view(),
            definition: vstd::view::View::view(&self.definition),
            columns: self.columns.deep_view(),
            updatable: self.updatable,
            metadata: self.metadata.deep_view(),
        }
    }
}

/// A materialized view — a view whose result set is physically stored.
#[derive(Debug, Clone, PartialEq)]
pub struct MaterializedView {
    pub name: String,
    pub db_name: Option<String>,
    pub db_schema: Option<String>,
    /// SQL `SELECT` statement that defines the view.
    pub definition: String,
    pub columns: Vec<ViewColumn>,
    /// Indexes on the materialized view's stored data.
    pub indexes: Vec<Index>,
    pub refresh_strategy: Option<RefreshStrategy>,
    pub metadata: OrmMetadata,
}

} // verus!
