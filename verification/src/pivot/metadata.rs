//! ORM-specific metadata attached to IR nodes.
use vstd::prelude::*;
use crate::json::{json_members_v, keys_sorted, JsonValue, SpecJson};

verus! {

/// ORM framework identifier — used to tag the source of a schema and to key target hints.
#[derive(Debug, Clone, PartialEq, Eq, Hash)]
pub enum OrmKind {
    Prisma,
    Drizzle,
    TypeOrm,
    Sequelize,
    MikroOrm,
    Gorm,
    SqlAlchemy,
    ActiveRecord,
    Hibernate,
    EntityFramework,
    Custom(String),
}

/// Mathematical model of an [`OrmKind`].
pub enum SpecOrmKind {
    Prisma,
    Drizzle,
    TypeOrm,
    Sequelize,
    MikroOrm,
    Gorm,
    SqlAlchemy,
    ActiveRecord,
    Hibernate,
    EntityFramework,
    Custom(Seq<char>),
}

impl DeepView for OrmKind {
    type V = SpecOrmKind;

    open spec fn deep_view(&self) -> SpecOrmKind {
        match self {
            OrmKind::Prisma => SpecOrmKind::Prisma,
            OrmKind::Drizzle => SpecOrmKind::Drizzle,
            OrmKind::TypeOrm => SpecOrmKind::TypeOrm,
            OrmKind::Sequelize => SpecOrmKind::Sequelize,
            OrmKind::MikroOrm => SpecOrmKind::MikroOrm,
            OrmKind::Gorm => SpecOrmKind::Gorm,
            OrmKind::SqlAlchemy => SpecOrmKind::SqlAlchemy,
            OrmKind::ActiveRecord => SpecOrmKind::ActiveRecord,
            OrmKind::Hibernate => SpecOrmKind::Hibernate,
            OrmKind::EntityFramework => SpecOrmKind::EntityFramework,
            OrmKind::Custom(s) => SpecOrmKind::Custom(s@),
        }
    }
}

/// An ORM-specific feature that has no equivalent in the target ORM.
///
/// It is stored rather than dropped, so that the round-trip back to the source
/// ORM can restore it (`recoverable = true`) and exporters can warn about it.
#[derive(Debug, Clone, PartialEq)]
pub struct UnknownFeature {
    /// Namespaced key identifying the feature, e.g. `"prisma.ignore"`.
    pub name: String,
    pub value: JsonValue,
    /// `true` if the feature can be restored when converting back to the source ORM.
    pub recoverable: bool,
}

/// Mathematical model of an [`UnknownFeature`].
pub struct SpecUnknownFeature {
    pub name: Seq<char>,
    pub value: SpecJson,
    pub recoverable: bool,
}

impl DeepView for UnknownFeature {
    type V = SpecUnknownFeature;

    open spec fn deep_view(&self) -> SpecUnknownFeature {
        SpecUnknownFeature {
            name: self.name@,
            value: self.value.deep_view(),
            recoverable: self.recoverable,
        }
    }
}

/// ORM-specific metadata attached to tables, columns, and other IR nodes.
///
/// Features that cannot be expressed in the IR are stored here rather than
/// being silently dropped.
#[derive(Debug, Clone, PartialEq)]
pub struct OrmMetadata {
    /// The ORM this node was originally parsed from.
    pub source_orm: Option<OrmKind>,
    /// Hints for specific target ORMs, keyed by the serialized [`OrmKind`] string.
    ///
    /// The keys are distinct and sorted (see [`OrmMetadata::hints_wf`]), as in
    /// a map ordered by key; [`crate::json::object_insert`] keeps them so.
    pub target_hints: Vec<(String, JsonValue)>,
    /// Features from the source ORM with no IR equivalent.
    pub unknown_features: Vec<UnknownFeature>,
}

/// Mathematical model of an [`OrmMetadata`].
pub struct SpecOrmMetadata {
    pub source_orm: Option<SpecOrmKind>,
    pub target_hints: Seq<(Seq<char>, SpecJson)>,
    pub unknown_features: Seq<SpecUnknownFeature>,
}

impl DeepView for OrmMetadata {
    type V = SpecOrmMetadata;

    open spec fn deep_view(&self) -> SpecOrmMetadata {
        SpecOrmMetadata {
            source_orm: self.source_orm.deep_view(),
            target_hints: json_members_v(self.target_hints@),
            unknown_features: self.unknown_features.deep_view(),
        }
    }
}

impl OrmMetadata {
    /// Well-formedness: the target hints have distinct keys in sorted order.
    pub open spec fn hints_wf(&self) -> bool {
        keys_sorted(self.deep_view().target_hints)
    }
}

impl Default for OrmMetadata {
    fn default() -> (r: Self)
        ensures
            r.source_orm is None,
            r.target_hints@.len() == 0,
            r.unknown_features@.len() == 0,
            r.hints_wf(),
    {
        let r = OrmMetadata { source_orm: None, target_hints: Vec::new(), unknown_features: Vec::new() };
        assert(r.deep_view().target_hints =~= Seq::<(Seq<char>, SpecJson)>::empty());
        r
    }
}

} // verus!
