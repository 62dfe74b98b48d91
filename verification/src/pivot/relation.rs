//! Foreign keys (database layer) and relations (ORM layer).
use vstd::prelude::*;

verus! {

/// Action taken on related rows when the referenced row is deleted or updated.
#[derive(Debug, Clone, Copy, PartialEq, Eq)]
pub enum ReferentialAction {
    /// Delete or update the child rows automatically.
    Cascade,
    /// Prevent deletion or update if child rows exist.
    Restrict,
    /// Set the foreign key column to NULL.
    SetNull,
    /// Set the foreign key column to its default value.
    SetDefault,
    /// Take no action — the database enforces nothing.
    NoAction,
}

impl DeepView for ReferentialAction {
    type V = ReferentialAction;

    open spec fn deep_view(&self) -> ReferentialAction {
        *self
    }
}

/// Delete and update actions for a foreign key or relation.
#[derive(Debug, Clone, Copy, PartialEq, Eq)]
pub struct CascadeOptions {
    pub on_delete: Option<ReferentialAction>,
    pub on_update: Option<ReferentialAction>,
}

/// Database-level foreign key constraint — what actually exists in the database DDL.
#[derive(Debug, Clone, PartialEq)]
pub struct ForeignKey {
    /// Constraint name as it appears in the database.
    pub name: Option<String>,
    /// Columns on the owning table that hold the foreign key values.
    pub columns: Vec<String>,
    pub referenced_table: String,
    pub referenced_columns: Vec<String>,
    pub on_delete: Option<ReferentialAction>,
    pub on_update: Option<ReferentialAction>,
}

/// Mathematical model of a [`ForeignKey`].
pub struct SpecForeignKey {
    pub name: Option<Seq<char>>,
    pub columns: Seq<Seq<char>>,
    pub referenced_table: Seq<char>,
    pub referenced_columns: Seq<Seq<char>>,
    pub on_delete: Option<ReferentialAction>,
    pub on_update: Option<ReferentialAction>,
}

impl DeepView for ForeignKey {
    type V = SpecForeignKey;

    open spec fn deep_view(&self) -> SpecForeignKey {
        SpecForeignKey {
            name: self.name.deep_view(),
            columns: self.columns.deep_view(),
            referenced_table: self.referenced_table@,
            referenced_columns: self.referenced_columns.deep_view(),
            on_delete: self.on_delete,
            on_update: self.on_update,
        }
    }
}

/// The junction (join) table for a many-to-many relation.
///
/// Always populated, even for an implicit many-to-many relation, so that the
/// original declaration can be reconstructed.
#[derive(Debug, Clone, PartialEq)]
pub struct JunctionTable {
    pub table: String,
    /// Column in the junction table pointing to the `from` side.
    pub from_column: String,
    /// Column in the junction table pointing to the `to` side.
    pub to_column: String,
}

/// Mathematical model of a [`JunctionTable`].
pub struct SpecJunctionTable {
    pub table: Seq<char>,
    pub from_column: Seq<char>,
    pub to_column: Seq<char>,
}

impl DeepView for JunctionTable {
    type V = SpecJunctionTable;

    open spec fn deep_view(&self) -> SpecJunctionTable {
        SpecJunctionTable {
            table: self.table@,
            from_column: self.from_column@,
            to_column: self.to_column@,
        }
    }
}

/// Cardinality and structure of an ORM-level relation.
#[derive(Debug, Clone, PartialEq)]
pub enum RelationKind {
    /// One-to-one — `owner_table` holds the foreign key.
    OneToOne { owner_table: String },
    OneToMany,
    ManyToMany {
        junction: JunctionTable,
        /// `true` — the ORM manages the junction table invisibly (Prisma implicit M2M).
        implicit: bool,
    },
}

/// Mathematical model of a [`RelationKind`].
pub enum SpecRelationKind {
    OneToOne { owner_table: Seq<char> },
    OneToMany,
    ManyToMany { junction: SpecJunctionTable, implicit: bool },
}

impl DeepView for RelationKind {
    type V = SpecRelationKind;

    open spec fn deep_view(&self) -> SpecRelationKind {
        match self {
            RelationKind::OneToOne { owner_table } => SpecRelationKind::OneToOne {
                owner_table: owner_table@,
            },
            RelationKind::OneToMany => SpecRelationKind::OneToMany,
            RelationKind::ManyToMany { junction, implicit } => SpecRelationKind::ManyToMany {
                junction: junction.deep_view(),
                implicit: *implicit,
            },
        }
    }
}

/// ORM-level relation — the abstraction the ORM adds on top of a [`ForeignKey`].
#[derive(Debug, Clone, PartialEq)]
pub struct Relation {
    /// Optional relation name.
    pub name: Option<String>,
    pub kind: RelationKind,
    pub from_table: String,
    pub from_fields: Vec<String>,
    pub to_table: String,
    pub to_fields: Vec<String>,
    pub cascade: CascadeOptions,
}

/// Mathematical model of a [`Relation`].
pub struct SpecRelation {
    pub name: Option<Seq<char>>,
    pub kind: SpecRelationKind,
    pub from_table: Seq<char>,
    pub from_fields: Seq<Seq<char>>,
    pub to_table: Seq<char>,
    pub to_fields: Seq<Seq<char>>,
    pub cascade: CascadeOptions,
}

impl DeepView for Relation {
    type V = SpecRelation;

    open spec fn deep_view(&self) -> SpecRelation {
        SpecRelation {
            name: self.name.deep_view(),
            kind: self.kind.deep_view(),
            from_table: self.from_table@,
            from_fields: self.from_fields.deep_view(),
            to_table: self.to_table@,
            to_fields: self.to_fields.deep_view(),
            cascade: self.cascade,
        }
    }
}

} // verus!
