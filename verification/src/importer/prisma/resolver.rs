//! Resolution of the raw syntax tree into pivot IR tables, views and enums.
use vstd::prelude::*;
use super::ast::{
    find_attr, spec_find_attr, spec_first_positional_str, ConfigField, EnumEntry, RawField,
    RawModel, RawEnum, RawTypeAlias, RawValue, SpecConfigField, SpecEnumEntry, SpecRawAttr,
    SpecRawEnum, SpecRawField, SpecRawModel, SpecRawTypeAlias, SpecRawValue,
};
use super::mappers::{attr_str, extract_db_naming, spec_attr_str};
use super::relations::{
    collect_relations, field_rel_name_pub, spec_back_field, spec_collect_models, spec_field_rel_name,
    spec_fk_of, spec_fks_for, spec_m2m_for, spec_m2m_relation, spec_names_match, spec_relation_of,
    spec_rels_for, Collect, RelInfo, SpecCollect, SpecRelInfo,
};
use super::scalar_table::{
    build_scalar_table, find_model, ignore_feature, ignored_fields_feature,
    spec_build_table, spec_first_model, spec_ignore_feature, spec_ignored_fields_feature,
    spec_unknown_block_features, unknown_block_features,
};
use crate::json::{JsonValue, SpecJson};
use crate::pivot::metadata::{OrmKind, OrmMetadata, SpecOrmKind, SpecOrmMetadata, SpecUnknownFeature, UnknownFeature};
use crate::pivot::relation::{
    CascadeOptions, ForeignKey, JunctionTable, Relation, RelationKind, SpecForeignKey,
    SpecRelation,
};
use crate::pivot::schema::{DatabaseKind, Enum, EnumValue, SpecDatabaseKind, SpecEnum, SpecEnumValue};
use crate::pivot::table::{SpecTable, Table};
use crate::pivot::view::{SpecView, SpecViewColumn, ViewColumn};
use crate::text::{
    append_all, concat, copy_opt_string, copy_strings, lemma_dv_append, lemma_dv_empty,
    lemma_dv_push, str_eq,
};

verus! {

// ── Tables ─────────────────────────────────────────────────────────────────

/// The complete table of a model: its scalar table with the foreign keys it
/// owns and the relations it takes part in.
pub open spec fn spec_resolved_table(
    m: SpecRawModel,
    models: Seq<SpecRawModel>,
    enums: Seq<Seq<char>>,
    aliases: Seq<SpecRawTypeAlias>,
    coll: SpecCollect,
) -> SpecTable {
    let base = spec_build_table(m, models, enums, aliases);
    SpecTable {
        foreign_keys: spec_fks_for(coll.rels, m.name),
        relations: spec_rels_for(coll.rels, m.name, models) + spec_m2m_for(coll.m2m, m.name),
        ..base
    }
}

/// The tables of a schema's models, one per model, in model order.
pub open spec fn spec_resolve_models(
    models: Seq<SpecRawModel>,
    enums: Seq<Seq<char>>,
    aliases: Seq<SpecRawTypeAlias>,
) -> Seq<SpecTable> {
    let coll = spec_collect_models(models, models);
    models.map_values(|m: SpecRawModel| spec_resolved_table(m, models, enums, aliases, coll))
}

fn fk_of(ri: &RelInfo) -> (r: ForeignKey)
    ensures
        r.deep_view() == spec_fk_of(ri.deep_view()),
{
    ForeignKey {
        name: copy_opt_string(&ri.fk_name),
        columns: copy_strings(&ri.owner_cols),
        referenced_table: ri.target.clone(),
        referenced_columns: copy_strings(&ri.target_refs),
        on_delete: ri.on_delete,
        on_update: ri.on_update,
    }
}

/// The foreign keys of the table of model `name`.
pub fn fks_for(rels: &Vec<RelInfo>, name: &str) -> (r: Vec<ForeignKey>)
    ensures
        r.deep_view() == spec_fks_for(rels.deep_view(), name@),
{
    let ghost all = rels.deep_view();
    let mut out: Vec<ForeignKey> = Vec::new();
    proof {
        lemma_dv_empty(out);
    }
    let mut i: usize = 0;
    while i < rels.len()
        invariant
            i <= rels@.len(),
            all == rels.deep_view(),
            out.deep_view() == spec_fks_for(all.take(i as int), name@),
        decreases rels@.len() - i,
    {
        assert(all.take(i + 1).drop_last() =~= all.take(i as int));
        if str_eq(rels[i].owner.as_str(), name) {
            let fk = fk_of(&rels[i]);
            let ghost o0 = out;
            out.push(fk);
            proof {
                lemma_dv_push(o0, out, fk);
            }
        }
        i = i + 1;
    }
    assert(all.take(rels@.len() as int) =~= all);
    out
}

fn opt_str_eq(a: &Option<String>, b: &Option<String>) -> (r: bool)
    ensures
        r == spec_names_match(a.deep_view(), b.deep_view()),
{
    match (a, b) {
        (Some(x), Some(y)) => str_eq(x.as_str(), y.as_str()),
        (None, None) => true,
        _ => false,
    }
}

/// The first field typed by `name` whose relation name matches `rn`.
fn back_field<'a>(fields: &'a Vec<RawField>, name: &str, rn: &Option<String>) -> (r: Option<&'a RawField>)
    ensures
        r.deep_view() == spec_back_field(fields.deep_view(), name@, rn.deep_view()),
{
    let ghost all = fields.deep_view();
    assert(all.skip(0) =~= all);
    let mut i: usize = 0;
    while i < fields.len()
        invariant
            i <= fields@.len(),
            all == fields.deep_view(),
            spec_back_field(all, name@, rn.deep_view()) == spec_back_field(all.skip(i as int), name@, rn.deep_view()),
        decreases fields@.len() - i,
    {
        assert(all.skip(i as int).drop_first() =~= all.skip(i + 1));
        let f = &fields[i];
        if str_eq(f.base_type.as_str(), name) {
            let frn = field_rel_name_pub(f);
            if opt_str_eq(rn, &frn) {
                return Some(f);
            }
        }
        i = i + 1;
    }
    None
}

fn relation_of(ri: &RelInfo, models: &Vec<RawModel>) -> (r: Relation)
    ensures
        r.deep_view() == spec_relation_of(ri.deep_view(), models.deep_view()),
{
    let back = match find_model(models, ri.target.as_str()) {
        Some(om) => back_field(&om.fields, ri.owner.as_str(), &ri.rel_name),
        None => None,
    };
    let back_is_array = match back {
        Some(f) => f.is_array,
        None => true,
    };
    Relation {
        name: copy_opt_string(&ri.rel_name),
        kind: if back_is_array {
            RelationKind::OneToMany
        } else {
            RelationKind::OneToOne { owner_table: ri.owner.clone() }
        },
        from_table: ri.target.clone(),
        from_fields: copy_strings(&ri.target_refs),
        to_table: ri.owner.clone(),
        to_fields: copy_strings(&ri.owner_cols),
        cascade: CascadeOptions { on_delete: ri.on_delete, on_update: ri.on_update },
    }
}

/// The relations of model `name` from the declarations it owns or is targeted by.
pub fn rels_for(rels: &Vec<RelInfo>, name: &str, models: &Vec<RawModel>) -> (r: Vec<Relation>)
    ensures
        r.deep_view() == spec_rels_for(rels.deep_view(), name@, models.deep_view()),
{
    let ghost all = rels.deep_view();
    let mut out: Vec<Relation> = Vec::new();
    proof {
        lemma_dv_empty(out);
    }
    let mut i: usize = 0;
    while i < rels.len()
        invariant
            i <= rels@.len(),
            all == rels.deep_view(),
            out.deep_view() == spec_rels_for(all.take(i as int), name@, models.deep_view()),
        decreases rels@.len() - i,
    {
        assert(all.take(i + 1).drop_last() =~= all.take(i as int));
        let ri = &rels[i];
        if str_eq(ri.owner.as_str(), name) || str_eq(ri.target.as_str(), name) {
            let rel = relation_of(ri, models);
            let ghost o0 = out;
            out.push(rel);
            proof {
                lemma_dv_push(o0, out, rel);
            }
        }
        i = i + 1;
    }
    assert(all.take(rels@.len() as int) =~= all);
    out
}

fn m2m_relation(key: &(String, String, Option<String>), ours: &String, other: &String) -> (r: Relation)
    ensures
        r.deep_view() == spec_m2m_relation(key.deep_view(), ours@, other@),
{
    let t = concat("_", key.0.as_str());
    let t = concat(t.as_str(), "To");
    let t = concat(t.as_str(), key.1.as_str());
    let from_fields: Vec<String> = Vec::new();
    let to_fields: Vec<String> = Vec::new();
    proof {
        lemma_dv_empty(from_fields);
        lemma_dv_empty(to_fields);
    }
    Relation {
        name: copy_opt_string(&key.2),
        kind: RelationKind::ManyToMany {
            junction: JunctionTable {
                table: t,
                from_column: String::from_str("A"),
                to_column: String::from_str("B"),
            },
            implicit: true,
        },
        from_table: ours.clone(),
        from_fields,
        to_table: other.clone(),
        to_fields,
        cascade: CascadeOptions { on_delete: None, on_update: None },
    }
}

/// The implicit many-to-many relations of model `name`.
pub fn m2m_for(keys: &Vec<(String, String, Option<String>)>, name: &str) -> (r: Vec<Relation>)
    ensures
        r.deep_view() == spec_m2m_for(keys.deep_view(), name@),
{
    let ghost all = keys.deep_view();
    let mut out: Vec<Relation> = Vec::new();
    proof {
        lemma_dv_empty(out);
    }
    let mut i: usize = 0;
    while i < keys.len()
        invariant
            i <= keys@.len(),
            all == keys.deep_view(),
            out.deep_view() == spec_m2m_for(all.take(i as int), name@),
        decreases keys@.len() - i,
    {
        assert(all.take(i + 1).drop_last() =~= all.take(i as int));
        let k = &keys[i];
        if str_eq(k.0.as_str(), name) {
            let rel = m2m_relation(k, &k.0, &k.1);
            let ghost o0 = out;
            out.push(rel);
            proof {
                lemma_dv_push(o0, out, rel);
            }
        } else if str_eq(k.1.as_str(), name) {
            let rel = m2m_relation(k, &k.1, &k.0);
            let ghost o0 = out;
            out.push(rel);
            proof {
                lemma_dv_push(o0, out, rel);
            }
        }
        i = i + 1;
    }
    assert(all.take(keys@.len() as int) =~= all);
    out
}

/// Resolves all models into tables, in model order.
pub fn resolve_models(
    models: &Vec<RawModel>,
    enums: &Vec<String>,
    aliases: &Vec<RawTypeAlias>,
) -> (r: Vec<Table>)
    ensures
        r.deep_view() == spec_resolve_models(
            models.deep_view(),
            enums.deep_view(),
            aliases.deep_view(),
        ),
{
    let ghost ms = models.deep_view();
    let ghost es = enums.deep_view();
    let ghost als = aliases.deep_view();
    let coll = collect_relations(models);
    let ghost cv = coll.deep_view();
    let mut out: Vec<Table> = Vec::new();
    proof {
        lemma_dv_empty(out);
    }
    let mut i: usize = 0;
    while i < models.len()
        invariant
            i <= models@.len(),
            ms == models.deep_view(),
            es == enums.deep_view(),
            als == aliases.deep_view(),
            cv == coll.deep_view(),
            cv == spec_collect_models(ms, ms),
            out.deep_view() == ms.take(i as int).map_values(
                |m: SpecRawModel| spec_resolved_table(m, ms, es, als, cv),
            ),
        decreases models@.len() - i,
    {
        let m = &models[i];
        let mut t = build_scalar_table(m, models, enums, aliases);
        t.foreign_keys = fks_for(&coll.rels, m.name.as_str());
        let mut rels = rels_for(&coll.rels, m.name.as_str(), models);
        let mm = m2m_for(&coll.m2m, m.name.as_str());
        let ghost r0 = rels;
        append_all(&mut rels, mm);
        proof {
            lemma_dv_append(r0, mm, rels);
        }
        t.relations = rels;
        assert(t.deep_view() == spec_resolved_table(ms[i as int], ms, es, als, cv));
        let ghost o0 = out;
        out.push(t);
        proof {
            lemma_dv_push(o0, out, t);
            assert(out.deep_view() =~= ms.take(i + 1).map_values(
                |m: SpecRawModel| spec_resolved_table(m, ms, es, als, cv),
            ));
        }
        i = i + 1;
    }
    assert(ms.take(models@.len() as int) =~= ms);
    out
}

// ── Views ──────────────────────────────────────────────────────────────────

pub open spec fn spec_view_column(f: SpecRawField) -> SpecViewColumn {
    SpecViewColumn { name: f.name, db_name: spec_attr_str(f.attrs, "map"@) }
}

/// The names of the fields marked `@ignore`, in order.
pub open spec fn spec_ignored_names(fields: Seq<SpecRawField>) -> Seq<Seq<char>>
    decreases fields.len(),
{
    if fields.len() == 0 {
        Seq::empty()
    } else {
        let rest = spec_ignored_names(fields.drop_last());
        if spec_find_attr(fields.last().attrs, "ignore"@) is Some {
            rest.push(fields.last().name)
        } else {
            rest
        }
    }
}

/// The view of a `view` block: its naming, one column per field, and its
/// metadata (`@@ignore`, the `@ignore` fields, then the unknown block attributes).
pub open spec fn spec_view_of(m: SpecRawModel) -> SpecView {
    let ba = m.block_attrs;
    let ignored = spec_ignored_names(m.fields);
    let ignore: Seq<SpecUnknownFeature> = if spec_find_attr(ba, "ignore"@) is Some {
        seq![spec_ignore_feature()]
    } else {
        Seq::empty()
    };
    let ign_fields: Seq<SpecUnknownFeature> = if ignored.len() > 0 {
        seq![spec_ignored_fields_feature(ignored)]
    } else {
        Seq::empty()
    };
    SpecView {
        name: m.name,
        db_name: spec_attr_str(ba, "map"@),
        db_schema: spec_attr_str(ba, "schema"@),
        definition: Seq::empty(),
        columns: m.fields.map_values(|f: SpecRawField| spec_view_column(f)),
        updatable: false,
        metadata: SpecOrmMetadata {
            source_orm: Some(SpecOrmKind::Prisma),
            target_hints: Seq::empty(),
            unknown_features: ignore + ign_fields + spec_unknown_block_features(ba, true),
        },
    }
}

/// Resolves a `view` block.
pub fn view_of(raw: &RawModel) -> (r: crate::pivot::view::View)
    ensures
        r.deep_view() == spec_view_of(raw.deep_view()),
{
    let ghost fs = raw.fields.deep_view();
    let (db_name, db_schema) = extract_db_naming(&raw.block_attrs);
    let mut columns: Vec<ViewColumn> = Vec::new();
    let mut ignored: Vec<String> = Vec::new();
    proof {
        lemma_dv_empty(columns);
        lemma_dv_empty(ignored);
    }
    let mut i: usize = 0;
    while i < raw.fields.len()
        invariant
            i <= raw.fields@.len(),
            fs == raw.fields.deep_view(),
            columns.deep_view() == fs.take(i as int).map_values(
                |f: SpecRawField| spec_view_column(f),
            ),
            ignored.deep_view() == spec_ignored_names(fs.take(i as int)),
        decreases raw.fields@.len() - i,
    {
        assert(fs.take(i + 1).drop_last() =~= fs.take(i as int));
        let f = &raw.fields[i];
        let c = ViewColumn { name: f.name.clone(), db_name: attr_str(&f.attrs, "map") };
        let ghost c0 = columns;
        columns.push(c);
        proof {
            lemma_dv_push(c0, columns, c);
            assert(columns.deep_view() =~= fs.take(i + 1).map_values(
                |f: SpecRawField| spec_view_column(f),
            ));
        }
        if find_attr(&f.attrs, "ignore").is_some() {
            let n = f.name.clone();
            let ghost g0 = ignored;
            ignored.push(n);
            proof {
                lemma_dv_push(g0, ignored, n);
            }
        }
        i = i + 1;
    }
    assert(fs.take(raw.fields@.len() as int) =~= fs);
    let mut features: Vec<UnknownFeature> = Vec::new();
    proof {
        lemma_dv_empty(features);
    }
    if find_attr(&raw.block_attrs, "ignore").is_some() {
        let f = ignore_feature();
        let ghost f0 = features;
        features.push(f);
        proof {
            lemma_dv_push(f0, features, f);
            assert(features.deep_view() =~= seq![spec_ignore_feature()]);
        }
    }
    if ignored.len() > 0 {
        let f = ignored_fields_feature(&ignored);
        let ghost f0 = features;
        features.push(f);
        proof {
            lemma_dv_push(f0, features, f);
        }
    }
    let ub = unknown_block_features(&raw.block_attrs, true);
    let ghost f1 = features;
    append_all(&mut features, ub);
    proof {
        lemma_dv_append(f1, ub, features);
    }
    let target_hints: Vec<(String, JsonValue)> = Vec::new();
    let v = crate::pivot::view::View {
        name: raw.name.clone(),
        db_name,
        db_schema,
        definition: String::new(),
        columns,
        updatable: false,
        metadata: OrmMetadata {
            source_orm: Some(OrmKind::Prisma),
            target_hints,
            unknown_features: features,
        },
    };
    proof {
        assert(v.metadata.target_hints@ =~= Seq::<(String, JsonValue)>::empty());
        assert(v.deep_view().metadata.target_hints =~= Seq::<(Seq<char>, SpecJson)>::empty());
        assert(v.deep_view().metadata.unknown_features =~= spec_view_of(raw.deep_view()).metadata.unknown_features);
    }
    v
}

/// Resolves all `view` blocks, in order.
pub fn resolve_views(raw_views: &Vec<RawModel>) -> (r: Vec<crate::pivot::view::View>)
    ensures
        r.deep_view() == raw_views.deep_view().map_values(|m: SpecRawModel| spec_view_of(m)),
{
    let ghost all = raw_views.deep_view();
    let mut out: Vec<crate::pivot::view::View> = Vec::new();
    proof {
        lemma_dv_empty(out);
    }
    let mut i: usize = 0;
    while i < raw_views.len()
        invariant
            i <= raw_views@.len(),
            all == raw_views.deep_view(),
            out.deep_view() == all.take(i as int).map_values(|m: SpecRawModel| spec_view_of(m)),
        decreases raw_views@.len() - i,
    {
        let v = view_of(&raw_views[i]);
        let ghost o0 = out;
        out.push(v);
        proof {
            lemma_dv_push(o0, out, v);
            assert(out.deep_view() =~= all.take(i + 1).map_values(|m: SpecRawModel| spec_view_of(m)));
        }
        i = i + 1;
    }
    assert(all.take(raw_views@.len() as int) =~= all);
    out
}

// ── Enums ──────────────────────────────────────────────────────────────────

/// The database name of an enum value: the string of its last `@map`.
pub open spec fn spec_value_db_name(attrs: Seq<SpecRawAttr>) -> Option<Seq<char>>
    decreases attrs.len(),
{
    if attrs.len() == 0 {
        None
    } else if attrs.last().path == "map"@ {
        spec_first_positional_str(attrs.last().args)
    } else {
        spec_value_db_name(attrs.drop_last())
    }
}

/// The enum a block declares so far: its last `@@map` and `@@schema` strings
/// and its values in order.
pub open spec fn spec_enum_entries(name: Seq<char>, entries: Seq<SpecEnumEntry>) -> SpecEnum
    decreases entries.len(),
{
    if entries.len() == 0 {
        SpecEnum { name, db_name: None, db_schema: None, values: Seq::empty() }
    } else {
        let acc = spec_enum_entries(name, entries.drop_last());
        match entries.last() {
            SpecEnumEntry::Attr(a) => if a.path == "map"@ {
                SpecEnum { db_name: spec_first_positional_str(a.args), ..acc }
            } else if a.path == "schema"@ {
                SpecEnum { db_schema: spec_first_positional_str(a.args), ..acc }
            } else {
                acc
            },
            SpecEnumEntry::Value(n, attrs) => SpecEnum {
                values: acc.values.push(SpecEnumValue { name: n, db_name: spec_value_db_name(attrs) }),
                ..acc
            },
        }
    }
}

pub open spec fn spec_enum_of(e: SpecRawEnum) -> SpecEnum {
    spec_enum_entries(e.name, e.entries)
}

fn value_db_name(attrs: &Vec<super::ast::RawAttr>) -> (r: Option<String>)
    ensures
        r.deep_view() == spec_value_db_name(attrs.deep_view()),
{
    let ghost all = attrs.deep_view();
    assert(all.take(all.len() as int) =~= all);
    let mut i: usize = attrs.len();
    while i > 0
        invariant
            i <= attrs@.len(),
            all == attrs.deep_view(),
            spec_value_db_name(all) == spec_value_db_name(all.take(i as int)),
        decreases i,
    {
        assert(all.take(i as int).drop_last() =~= all.take(i - 1));
        if str_eq(attrs[i - 1].path.as_str(), "map") {
            return attrs[i - 1].first_positional_str();
        }
        i = i - 1;
    }
    None
}

/// Resolves an `enum` block.
pub fn enum_of(raw: &RawEnum) -> (r: Enum)
    ensures
        r.deep_view() == spec_enum_of(raw.deep_view()),
{
    let ghost es = raw.entries.deep_view();
    let mut db_name: Option<String> = None;
    let mut db_schema: Option<String> = None;
    let mut values: Vec<EnumValue> = Vec::new();
    proof {
        lemma_dv_empty(values);
        assert(es.take(0) =~= Seq::<SpecEnumEntry>::empty());
    }
    let mut i: usize = 0;
    while i < raw.entries.len()
        invariant
            i <= raw.entries@.len(),
            es == raw.entries.deep_view(),
            spec_enum_entries(raw.name@, es.take(i as int)) == (SpecEnum {
                name: raw.name@,
                db_name: db_name.deep_view(),
                db_schema: db_schema.deep_view(),
                values: values.deep_view(),
            }),
        decreases raw.entries@.len() - i,
    {
        assert(es.take(i + 1).drop_last() =~= es.take(i as int));
        match &raw.entries[i] {
            EnumEntry::Attr(a) => {
                if str_eq(a.path.as_str(), "map") {
                    db_name = a.first_positional_str();
                } else if str_eq(a.path.as_str(), "schema") {
                    db_schema = a.first_positional_str();
                }
            },
            EnumEntry::Value(n, attrs) => {
                let v = EnumValue { name: n.clone(), db_name: value_db_name(attrs) };
                let ghost v0 = values;
                values.push(v);
                proof {
                    lemma_dv_push(v0, values, v);
                }
            },
        }
        i = i + 1;
    }
    assert(es.take(raw.entries@.len() as int) =~= es);
    Enum { name: raw.name.clone(), db_name, db_schema, values }
}

// ── Datasource ─────────────────────────────────────────────────────────────

/// The database kind named by a datasource `provider`.
pub open spec fn spec_map_provider(p: Seq<char>) -> SpecDatabaseKind {
    if p == "postgresql"@ || p == "postgres"@ {
        SpecDatabaseKind::PostgreSql
    } else if p == "mysql"@ {
        SpecDatabaseKind::MySql
    } else if p == "sqlite"@ {
        SpecDatabaseKind::Sqlite
    } else if p == "sqlserver"@ {
        SpecDatabaseKind::MsSql
    } else if p == "cockroachdb"@ {
        SpecDatabaseKind::CockroachDb
    } else {
        SpecDatabaseKind::Custom(p)
    }
}

/// The database of a datasource block: from its first `provider` given as a
/// string or an identifier; PostgreSQL when there is none.
pub open spec fn spec_datasource_kind(cfg: Seq<SpecConfigField>) -> SpecDatabaseKind
    decreases cfg.len(),
{
    if cfg.len() == 0 {
        SpecDatabaseKind::PostgreSql
    } else if cfg[0].key == "provider"@ {
        match cfg[0].value {
            SpecRawValue::Str(s) => spec_map_provider(s),
            SpecRawValue::Ident(s) => spec_map_provider(s),
            _ => spec_datasource_kind(cfg.drop_first()),
        }
    } else {
        spec_datasource_kind(cfg.drop_first())
    }
}

fn map_provider(p: &str) -> (r: DatabaseKind)
    ensures
        r.deep_view() == spec_map_provider(p@),
{
    if str_eq(p, "postgresql") || str_eq(p, "postgres") {
        DatabaseKind::PostgreSql
    } else if str_eq(p, "mysql") {
        DatabaseKind::MySql
    } else if str_eq(p, "sqlite") {
        DatabaseKind::Sqlite
    } else if str_eq(p, "sqlserver") {
        DatabaseKind::MsSql
    } else if str_eq(p, "cockroachdb") {
        DatabaseKind::CockroachDb
    } else {
        DatabaseKind::Custom(String::from_str(p))
    }
}

/// The database kind that a datasource block selects.
pub fn datasource_kind(cfg: &Vec<ConfigField>) -> (r: DatabaseKind)
    ensures
        r.deep_view() == spec_datasource_kind(cfg.deep_view()),
{
    let ghost all = cfg.deep_view();
    assert(all.skip(0) =~= all);
    let mut i: usize = 0;
    while i < cfg.len()
        invariant
            i <= cfg@.len(),
            all == cfg.deep_view(),
            spec_datasource_kind(all) == spec_datasource_kind(all.skip(i as int)),
        decreases cfg@.len() - i,
    {
        assert(all.skip(i as int).drop_first() =~= all.skip(i + 1));
        let c = &cfg[i];
        if str_eq(c.key.as_str(), "provider") {
            match &c.value {
                RawValue::Str(s) => {
                    return map_provider(s.as_str());
                },
                RawValue::Ident(s) => {
                    return map_provider(s.as_str());
                },
                _ => {},
            }
        }
        i = i + 1;
    }
    DatabaseKind::PostgreSql
}

} // verus!
