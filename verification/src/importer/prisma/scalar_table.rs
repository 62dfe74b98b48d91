//! Building the scalar part of a table (columns, keys, indexes, metadata)
//! from a raw model.
use vstd::prelude::*;
use super::ast::{
    find_attr, spec_as_ident, spec_find_attr, spec_first_positional, spec_named, spec_named_str,
    RawAttr, RawField, RawModel, RawTypeAlias, RawValue, SpecRawAttr, SpecRawField, SpecRawModel,
    SpecRawTypeAlias, SpecRawValue,
};
use super::mappers::{
    attr_str, extract_columns_from_attr, extract_db_naming, extract_index_columns, map_db_hint,
    map_default_value, map_index_type, map_scalar_type, raw_args_to_json, spec_args_to_json,
    spec_attr_str, spec_columns_from_attr, spec_index_columns, spec_map_db_hint,
    spec_map_default_value, spec_map_index_type, spec_map_scalar_type,
};
use crate::json::{json_seq_v, json_v, lemma_json_seq_push, JsonValue, SpecJson};
use crate::pivot::metadata::{
    OrmKind, OrmMetadata, SpecOrmKind, SpecOrmMetadata, SpecUnknownFeature, UnknownFeature,
};
use crate::pivot::table::{
    Behavior, Column, Index, IndexType, PrimaryKey, SpecBehavior, SpecColumn, SpecIndex,
    SpecIndexType, SpecPrimaryKey, SpecTable, SpecUniqueConstraint, Table, UniqueConstraint,
};
use crate::pivot::types::{ColumnType, ScalarType, SpecColumnType, SpecScalarType};
use crate::text::{
    append_all, concat, lemma_dv_append, lemma_dv_empty, lemma_dv_push, starts_with, str_eq,
};

verus! {

// ── Lookups over models, aliases and names ─────────────────────────────────

/// Whether some model has the given name.
pub open spec fn spec_has_model(models: Seq<SpecRawModel>, t: Seq<char>) -> bool {
    exists|i: int| 0 <= i < models.len() && models[i].name == t
}

/// The first model with the given name.
pub open spec fn spec_first_model(models: Seq<SpecRawModel>, t: Seq<char>) -> Option<SpecRawModel>
    decreases models.len(),
{
    if models.len() == 0 {
        None
    } else if models[0].name == t {
        Some(models[0])
    } else {
        spec_first_model(models.drop_first(), t)
    }
}

/// The alias in effect for a type name: the last alias declared with that name.
pub open spec fn spec_find_alias(aliases: Seq<SpecRawTypeAlias>, t: Seq<char>) -> Option<
    SpecRawTypeAlias,
>
    decreases aliases.len(),
{
    if aliases.len() == 0 {
        None
    } else if aliases.last().name == t {
        Some(aliases.last())
    } else {
        spec_find_alias(aliases.drop_last(), t)
    }
}

/// The first attribute whose path starts with `prefix`.
pub open spec fn spec_find_prefixed(attrs: Seq<SpecRawAttr>, prefix: Seq<char>) -> Option<
    SpecRawAttr,
>
    decreases attrs.len(),
{
    if attrs.len() == 0 {
        None
    } else if prefix.is_prefix_of(attrs[0].path) {
        Some(attrs[0])
    } else {
        spec_find_prefixed(attrs.drop_first(), prefix)
    }
}

/// Whether some model has the given name.
pub fn has_model(models: &Vec<RawModel>, t: &str) -> (r: bool)
    ensures
        r == spec_has_model(models.deep_view(), t@),
{
    let mut i: usize = 0;
    while i < models.len()
        invariant
            i <= models@.len(),
            forall|j: int| 0 <= j < i ==> models.deep_view()[j].name != t@,
        decreases models@.len() - i,
    {
        if str_eq(models[i].name.as_str(), t) {
            assert(models.deep_view()[i as int].name == t@);
            return true;
        }
        i = i + 1;
    }
    false
}

/// The first model with the given name.
pub fn find_model<'a>(models: &'a Vec<RawModel>, t: &str) -> (r: Option<&'a RawModel>)
    ensures
        r.deep_view() == spec_first_model(models.deep_view(), t@),
{
    let ghost all = models.deep_view();
    assert(all.skip(0) =~= all);
    let mut i: usize = 0;
    while i < models.len()
        invariant
            i <= models@.len(),
            all == models.deep_view(),
            spec_first_model(all, t@) == spec_first_model(all.skip(i as int), t@),
        decreases models@.len() - i,
    {
        assert(all.skip(i as int).drop_first() =~= all.skip(i + 1));
        if str_eq(models[i].name.as_str(), t) {
            return Some(&models[i]);
        }
        i = i + 1;
    }
    None
}

/// The last alias declared with the given name.
pub fn find_alias<'a>(aliases: &'a Vec<RawTypeAlias>, t: &str) -> (r: Option<&'a RawTypeAlias>)
    ensures
        r.deep_view() == spec_find_alias(aliases.deep_view(), t@),
{
    let ghost all = aliases.deep_view();
    assert(all.take(all.len() as int) =~= all);
    let mut i: usize = aliases.len();
    while i > 0
        invariant
            i <= aliases@.len(),
            all == aliases.deep_view(),
            spec_find_alias(all, t@) == spec_find_alias(all.take(i as int), t@),
        decreases i,
    {
        assert(all.take(i as int).drop_last() =~= all.take(i - 1));
        if str_eq(aliases[i - 1].name.as_str(), t) {
            return Some(&aliases[i - 1]);
        }
        i = i - 1;
    }
    None
}

/// Whether `names` holds `t`.
pub fn contains_str(names: &Vec<String>, t: &str) -> (r: bool)
    ensures
        r == names.deep_view().contains(t@),
{
    let mut i: usize = 0;
    while i < names.len()
        invariant
            i <= names@.len(),
            forall|j: int| 0 <= j < i ==> names.deep_view()[j] != t@,
        decreases names@.len() - i,
    {
        if str_eq(names[i].as_str(), t) {
            assert(names.deep_view()[i as int] == t@);
            return true;
        }
        i = i + 1;
    }
    false
}

/// The first attribute whose path starts with `prefix`.
pub fn find_prefixed<'a>(attrs: &'a Vec<RawAttr>, prefix: &str) -> (r: Option<&'a RawAttr>)
    ensures
        r.deep_view() == spec_find_prefixed(attrs.deep_view(), prefix@),
{
    let ghost all = attrs.deep_view();
    assert(all.skip(0) =~= all);
    let mut i: usize = 0;
    while i < attrs.len()
        invariant
            i <= attrs@.len(),
            all == attrs.deep_view(),
            spec_find_prefixed(all, prefix@) == spec_find_prefixed(all.skip(i as int), prefix@),
        decreases attrs@.len() - i,
    {
        assert(all.skip(i as int).drop_first() =~= all.skip(i + 1));
        if starts_with(attrs[i].path.as_str(), prefix) {
            return Some(&attrs[i]);
        }
        i = i + 1;
    }
    None
}

// ── Block attributes ───────────────────────────────────────────────────────

/// The primary key declared by `@@id`.
pub open spec fn spec_block_pk(attrs: Seq<SpecRawAttr>) -> Option<SpecPrimaryKey> {
    match spec_find_attr(attrs, "id"@) {
        Some(a) => Some(
            SpecPrimaryKey {
                name: spec_named_str(a.args, "map"@),
                columns: spec_columns_from_attr(a.args),
            },
        ),
        None => None,
    }
}

pub open spec fn spec_unique_of(a: SpecRawAttr) -> SpecUniqueConstraint {
    SpecUniqueConstraint {
        name: spec_named_str(a.args, "map"@),
        columns: spec_columns_from_attr(a.args),
    }
}

/// The unique constraints declared by `@@unique`, in order.
pub open spec fn spec_block_uniques(attrs: Seq<SpecRawAttr>) -> Seq<SpecUniqueConstraint>
    decreases attrs.len(),
{
    if attrs.len() == 0 {
        Seq::empty()
    } else {
        let rest = spec_block_uniques(attrs.drop_last());
        if attrs.last().path == "unique"@ {
            rest.push(spec_unique_of(attrs.last()))
        } else {
            rest
        }
    }
}

/// The column list argument of `@@index` / `@@fulltext`: `fields:` else the first positional.
pub open spec fn spec_cols_value(a: SpecRawAttr) -> Option<SpecRawValue> {
    match spec_named(a.args, "fields"@) {
        Some(v) => Some(v),
        None => spec_first_positional(a.args),
    }
}

pub open spec fn spec_index_type_arg(a: SpecRawAttr) -> Option<SpecIndexType> {
    match spec_named(a.args, "type"@) {
        Some(v) => match spec_as_ident(v) {
            Some(s) => Some(spec_map_index_type(s)),
            None => None,
        },
        None => None,
    }
}

pub open spec fn spec_index_of(a: SpecRawAttr, cols: SpecRawValue) -> SpecIndex {
    SpecIndex {
        name: spec_named_str(a.args, "name"@),
        columns: spec_index_columns(cols),
        unique: false,
        partial: None,
        index_type: spec_index_type_arg(a),
        included: Seq::empty(),
    }
}

/// The indexes declared by `@@index` (those that name their columns), in order.
pub open spec fn spec_block_indexes(attrs: Seq<SpecRawAttr>) -> Seq<SpecIndex>
    decreases attrs.len(),
{
    if attrs.len() == 0 {
        Seq::empty()
    } else {
        let rest = spec_block_indexes(attrs.drop_last());
        let a = attrs.last();
        if a.path == "index"@ {
            match spec_cols_value(a) {
                Some(cols) => rest.push(spec_index_of(a, cols)),
                None => rest,
            }
        } else {
            rest
        }
    }
}

pub open spec fn spec_fulltext_of(a: SpecRawAttr) -> SpecIndex {
    SpecIndex {
        name: spec_named_str(a.args, "name"@),
        columns: match spec_cols_value(a) {
            Some(cols) => spec_index_columns(cols),
            None => Seq::empty(),
        },
        unique: false,
        partial: None,
        index_type: Some(SpecIndexType::Custom { name: "fulltext"@ }),
        included: Seq::empty(),
    }
}

/// The full-text indexes declared by `@@fulltext`, in order.
pub open spec fn spec_block_fulltexts(attrs: Seq<SpecRawAttr>) -> Seq<SpecIndex>
    decreases attrs.len(),
{
    if attrs.len() == 0 {
        Seq::empty()
    } else {
        let rest = spec_block_fulltexts(attrs.drop_last());
        if attrs.last().path == "fulltext"@ {
            rest.push(spec_fulltext_of(attrs.last()))
        } else {
            rest
        }
    }
}

/// Block attributes that a model's table models directly.
pub open spec fn spec_known_block_attr(p: Seq<char>) -> bool {
    p == "map"@ || p == "schema"@ || p == "id"@ || p == "unique"@ || p == "index"@ || p
        == "fulltext"@ || p == "ignore"@
}

/// Block attributes that a view models directly.
pub open spec fn spec_known_view_attr(p: Seq<char>) -> bool {
    p == "map"@ || p == "schema"@ || p == "ignore"@
}

pub open spec fn spec_is_known_block_attr(p: Seq<char>, is_view: bool) -> bool {
    if is_view {
        spec_known_view_attr(p)
    } else {
        spec_known_block_attr(p)
    }
}

/// The feature recorded for a block attribute `@@path(args)` with no IR equivalent.
pub open spec fn spec_block_feature(a: SpecRawAttr) -> SpecUnknownFeature {
    SpecUnknownFeature {
        name: "prisma."@ + a.path,
        value: spec_args_to_json(a.args),
        recoverable: true,
    }
}

/// One feature for each block attribute that is not known, in order.
pub open spec fn spec_unknown_block_features(attrs: Seq<SpecRawAttr>, is_view: bool) -> Seq<
    SpecUnknownFeature,
>
    decreases attrs.len(),
{
    if attrs.len() == 0 {
        Seq::empty()
    } else {
        let rest = spec_unknown_block_features(attrs.drop_last(), is_view);
        if spec_is_known_block_attr(attrs.last().path, is_view) {
            rest
        } else {
            rest.push(spec_block_feature(attrs.last()))
        }
    }
}

/// The feature that records `@@ignore`.
pub open spec fn spec_ignore_feature() -> SpecUnknownFeature {
    SpecUnknownFeature { name: "prisma.ignore"@, value: SpecJson::Bool(true), recoverable: true }
}

/// The feature that records the fields marked `@ignore`.
pub open spec fn spec_ignored_fields_feature(names: Seq<Seq<char>>) -> SpecUnknownFeature {
    SpecUnknownFeature {
        name: "prisma.ignoredFields"@,
        value: SpecJson::Array(names.map_values(|n: Seq<char>| SpecJson::String(n))),
        recoverable: true,
    }
}

fn is_known_block_attr(p: &str, is_view: bool) -> (r: bool)
    ensures
        r == spec_is_known_block_attr(p@, is_view),
{
    if is_view {
        str_eq(p, "map") || str_eq(p, "schema") || str_eq(p, "ignore")
    } else {
        str_eq(p, "map") || str_eq(p, "schema") || str_eq(p, "id") || str_eq(p, "unique")
            || str_eq(p, "index") || str_eq(p, "fulltext") || str_eq(p, "ignore")
    }
}

/// The primary key declared by `@@id`.
pub fn block_pk(attrs: &Vec<RawAttr>) -> (r: Option<PrimaryKey>)
    ensures
        r.deep_view() == spec_block_pk(attrs.deep_view()),
{
    match find_attr(attrs, "id") {
        Some(a) => Some(
            PrimaryKey { name: a.named_str("map"), columns: extract_columns_from_attr(a) },
        ),
        None => None,
    }
}

/// The unique constraints declared by `@@unique`.
pub fn block_uniques(attrs: &Vec<RawAttr>) -> (r: Vec<UniqueConstraint>)
    ensures
        r.deep_view() == spec_block_uniques(attrs.deep_view()),
{
    let ghost all = attrs.deep_view();
    let mut out: Vec<UniqueConstraint> = Vec::new();
    proof {
        lemma_dv_empty(out);
    }
    let mut i: usize = 0;
    while i < attrs.len()
        invariant
            i <= attrs@.len(),
            all == attrs.deep_view(),
            out.deep_view() == spec_block_uniques(all.take(i as int)),
        decreases attrs@.len() - i,
    {
        assert(all.take(i + 1).drop_last() =~= all.take(i as int));
        let a = &attrs[i];
        if str_eq(a.path.as_str(), "unique") {
            let u = UniqueConstraint { name: a.named_str("map"), columns: extract_columns_from_attr(a) };
            let ghost before = out;
            out.push(u);
            proof {
                lemma_dv_push(before, out, u);
            }
        }
        i = i + 1;
    }
    assert(all.take(attrs@.len() as int) =~= all);
    out
}

fn cols_value(a: &RawAttr) -> (r: Option<&RawValue>)
    ensures
        r.deep_view() == spec_cols_value(a.deep_view()),
{
    match a.named("fields") {
        Some(v) => Some(v),
        None => a.first_positional(),
    }
}

fn index_type_arg(a: &RawAttr) -> (r: Option<IndexType>)
    ensures
        r.deep_view() == spec_index_type_arg(a.deep_view()),
{
    match a.named("type") {
        Some(v) => match v.as_ident() {
            Some(s) => Some(map_index_type(s.as_str())),
            None => None,
        },
        None => None,
    }
}

/// The indexes declared by `@@index` followed by those of `@@fulltext`.
pub fn block_indexes(attrs: &Vec<RawAttr>) -> (r: Vec<Index>)
    ensures
        r.deep_view() == spec_block_indexes(attrs.deep_view()) + spec_block_fulltexts(
            attrs.deep_view(),
        ),
{
    let ghost all = attrs.deep_view();
    let mut out: Vec<Index> = Vec::new();
    proof {
        lemma_dv_empty(out);
    }
    let mut i: usize = 0;
    while i < attrs.len()
        invariant
            i <= attrs@.len(),
            all == attrs.deep_view(),
            out.deep_view() == spec_block_indexes(all.take(i as int)),
        decreases attrs@.len() - i,
    {
        assert(all.take(i + 1).drop_last() =~= all.take(i as int));
        let a = &attrs[i];
        if str_eq(a.path.as_str(), "index") {
            if let Some(cv) = cols_value(a) {
                let idx = Index {
                    name: a.named_str("name"),
                    columns: extract_index_columns(cv),
                    unique: false,
                    partial: None,
                    index_type: index_type_arg(a),
                    included: Vec::new(),
                };
                proof {
                    lemma_dv_empty(idx.included);
                }
                let ghost before = out;
                out.push(idx);
                proof {
                    lemma_dv_push(before, out, idx);
                }
            }
        }
        i = i + 1;
    }
    assert(all.take(attrs@.len() as int) =~= all);
    let mut ft: Vec<Index> = Vec::new();
    proof {
        lemma_dv_empty(ft);
    }
    let mut i: usize = 0;
    while i < attrs.len()
        invariant
            i <= attrs@.len(),
            all == attrs.deep_view(),
            ft.deep_view() == spec_block_fulltexts(all.take(i as int)),
        decreases attrs@.len() - i,
    {
        assert(all.take(i + 1).drop_last() =~= all.take(i as int));
        let a = &attrs[i];
        if str_eq(a.path.as_str(), "fulltext") {
            let columns = match cols_value(a) {
                Some(cv) => extract_index_columns(cv),
                None => Vec::new(),
            };
            proof {
                if spec_cols_value(a.deep_view()) is None {
                    lemma_dv_empty(columns);
                }
            }
            let idx = Index {
                name: a.named_str("name"),
                columns,
                unique: false,
                partial: None,
                index_type: Some(IndexType::Custom { name: String::from_str("fulltext") }),
                included: Vec::new(),
            };
            proof {
                lemma_dv_empty(idx.included);
            }
            let ghost before = ft;
            ft.push(idx);
            proof {
                lemma_dv_push(before, ft, idx);
            }
        }
        i = i + 1;
    }
    assert(all.take(attrs@.len() as int) =~= all);
    let ghost a0 = out;
    append_all(&mut out, ft);
    proof {
        lemma_dv_append(a0, ft, out);
    }
    out
}

/// One feature for each block attribute that is not known, in order.
pub fn unknown_block_features(attrs: &Vec<RawAttr>, is_view: bool) -> (r: Vec<UnknownFeature>)
    ensures
        r.deep_view() == spec_unknown_block_features(attrs.deep_view(), is_view),
{
    let ghost all = attrs.deep_view();
    let mut out: Vec<UnknownFeature> = Vec::new();
    proof {
        lemma_dv_empty(out);
    }
    let mut i: usize = 0;
    while i < attrs.len()
        invariant
            i <= attrs@.len(),
            all == attrs.deep_view(),
            out.deep_view() == spec_unknown_block_features(all.take(i as int), is_view),
        decreases attrs@.len() - i,
    {
        assert(all.take(i + 1).drop_last() =~= all.take(i as int));
        let a = &attrs[i];
        if !is_known_block_attr(a.path.as_str(), is_view) {
            let f = UnknownFeature {
                name: concat("prisma.", a.path.as_str()),
                value: raw_args_to_json(&a.args),
                recoverable: true,
            };
            let ghost before = out;
            out.push(f);
            proof {
                lemma_dv_push(before, out, f);
            }
        }
        i = i + 1;
    }
    assert(all.take(attrs@.len() as int) =~= all);
    out
}

/// The feature that records `@@ignore`.
pub fn ignore_feature() -> (r: UnknownFeature)
    ensures
        r.deep_view() == spec_ignore_feature(),
{
    UnknownFeature {
        name: String::from_str("prisma.ignore"),
        value: JsonValue::Bool(true),
        recoverable: true,
    }
}

/// The feature that records the fields marked `@ignore`.
pub fn ignored_fields_feature(names: &Vec<String>) -> (r: UnknownFeature)
    ensures
        r.deep_view() == spec_ignored_fields_feature(names.deep_view()),
{
    let ghost all = names.deep_view();
    let mut items: Vec<JsonValue> = Vec::new();
    let mut i: usize = 0;
    while i < names.len()
        invariant
            i <= names@.len(),
            all == names.deep_view(),
            json_seq_v(items@) == all.take(i as int).map_values(
                |n: Seq<char>| SpecJson::String(n),
            ),
        decreases names@.len() - i,
    {
        let j = JsonValue::String(names[i].clone());
        proof {
            lemma_json_seq_push(items@, j);
        }
        items.push(j);
        assert(json_seq_v(items@) =~= all.take(i + 1).map_values(
            |n: Seq<char>| SpecJson::String(n),
        ));
        i = i + 1;
    }
    assert(all.take(names@.len() as int) =~= all);
    UnknownFeature {
        name: String::from_str("prisma.ignoredFields"),
        value: JsonValue::Array(items),
        recoverable: true,
    }
}

// ── Columns ────────────────────────────────────────────────────────────────

/// The attributes that the alias of a type name contributes (none without an alias).
pub open spec fn spec_alias_attrs(aliases: Seq<SpecRawTypeAlias>, t: Seq<char>) -> Seq<SpecRawAttr> {
    match spec_find_alias(aliases, t) {
        Some(a) => a.attrs,
        None => Seq::empty(),
    }
}

/// The type name a field resolves to: the alias's base type, else the field's own.
pub open spec fn spec_effective_base(aliases: Seq<SpecRawTypeAlias>, t: Seq<char>) -> Seq<char> {
    match spec_find_alias(aliases, t) {
        Some(a) => a.base_type,
        None => t,
    }
}

/// The scalar type of a field: `Unsupported(..)` as written, an enum, a Prisma
/// scalar, or else the type name carried as `Unsupported` (the base type of
/// a type alias that names no Prisma scalar or enum).
pub open spec fn spec_scalar_of(
    f: SpecRawField,
    enums: Seq<Seq<char>>,
    aliases: Seq<SpecRawTypeAlias>,
) -> SpecScalarType {
    let eff = spec_effective_base(aliases, f.base_type);
    match f.unsupported_type {
        Some(t) => SpecScalarType::Unsupported { raw_type: t },
        None => if enums.contains(eff) {
            SpecScalarType::Enum { name: eff }
        } else {
            match spec_map_scalar_type(eff) {
                Some(s) => s,
                None => SpecScalarType::Unsupported { raw_type: eff },
            }
        },
    }
}

/// The first `@db.*` attribute of the field, else of its alias.
pub open spec fn spec_db_attr_of(f: SpecRawField, aliases: Seq<SpecRawTypeAlias>) -> Option<
    SpecRawAttr,
> {
    match spec_find_prefixed(f.attrs, "db."@) {
        Some(a) => Some(a),
        None => spec_find_prefixed(spec_alias_attrs(aliases, f.base_type), "db."@),
    }
}

/// The first attribute with a path on the field, else on its alias.
pub open spec fn spec_field_or_alias_attr(
    f: SpecRawField,
    aliases: Seq<SpecRawTypeAlias>,
    path: Seq<char>,
) -> Option<SpecRawAttr> {
    match spec_find_attr(f.attrs, path) {
        Some(a) => Some(a),
        None => spec_find_attr(spec_alias_attrs(aliases, f.base_type), path),
    }
}

pub open spec fn spec_column_of(
    f: SpecRawField,
    enums: Seq<Seq<char>>,
    aliases: Seq<SpecRawTypeAlias>,
) -> SpecColumn {
    SpecColumn {
        name: f.name,
        db_name: spec_attr_str(f.attrs, "map"@),
        col_type: SpecColumnType {
            scalar: spec_scalar_of(f, enums, aliases),
            db_hint: match spec_db_attr_of(f, aliases) {
                Some(a) => spec_map_db_hint(a.path, a.args),
                None => None,
            },
            array: f.is_array,
        },
        nullable: f.is_optional,
        default: match spec_field_or_alias_attr(f, aliases, "default"@) {
            Some(a) => match spec_first_positional(a.args) {
                Some(v) => spec_map_default_value(v),
                None => None,
            },
            None => None,
        },
    }
}

/// The column of a scalar field.
pub fn column_of(f: &RawField, enums: &Vec<String>, aliases: &Vec<RawTypeAlias>) -> (r: Column)
    ensures
        r.deep_view() == spec_column_of(f.deep_view(), enums.deep_view(), aliases.deep_view()),
{
    let alias = find_alias(aliases, f.base_type.as_str());
    let eff: &str = match alias {
        Some(a) => a.base_type.as_str(),
        None => f.base_type.as_str(),
    };
    let scalar = match &f.unsupported_type {
        Some(t) => ScalarType::Unsupported { raw_type: t.clone() },
        None => if contains_str(enums, eff) {
            ScalarType::Enum { name: String::from_str(eff) }
        } else {
            match map_scalar_type(eff) {
                Some(s) => s,
                None => ScalarType::Unsupported { raw_type: String::from_str(eff) },
            }
        },
    };
    let db_attr = match find_prefixed(&f.attrs, "db.") {
        Some(a) => Some(a),
        None => match alias {
            Some(al) => find_prefixed(&al.attrs, "db."),
            None => None,
        },
    };
    let db_hint = match db_attr {
        Some(a) => map_db_hint(a.path.as_str(), &a.args),
        None => None,
    };
    let def_attr = match find_attr(&f.attrs, "default") {
        Some(a) => Some(a),
        None => match alias {
            Some(al) => find_attr(&al.attrs, "default"),
            None => None,
        },
    };
    let default = match def_attr {
        Some(a) => match a.first_positional() {
            Some(v) => map_default_value(v),
            None => None,
        },
        None => None,
    };
    Column {
        name: f.name.clone(),
        db_name: attr_str(&f.attrs, "map"),
        col_type: ColumnType { scalar, db_hint, array: f.is_array },
        nullable: f.is_optional,
        default,
    }
}

// ── The field loop ─────────────────────────────────────────────────────────

/// Field attributes that the IR models directly.
pub open spec fn spec_known_field_attr(p: Seq<char>) -> bool {
    p == "id"@ || p == "default"@ || p == "unique"@ || p == "map"@ || p == "updatedAt"@ || p
        == "ignore"@ || p == "relation"@
}

/// The feature recorded for a field attribute with no IR equivalent.
pub open spec fn spec_field_feature(field: Seq<char>, a: SpecRawAttr) -> SpecUnknownFeature {
    SpecUnknownFeature {
        name: "prisma.field."@ + field + "."@ + a.path,
        value: spec_args_to_json(a.args),
        recoverable: true,
    }
}

/// One feature for each field attribute that is neither known nor a `@db.*` hint.
pub open spec fn spec_field_unknowns(field: Seq<char>, attrs: Seq<SpecRawAttr>) -> Seq<
    SpecUnknownFeature,
>
    decreases attrs.len(),
{
    if attrs.len() == 0 {
        Seq::empty()
    } else {
        let rest = spec_field_unknowns(field, attrs.drop_last());
        let a = attrs.last();
        if !spec_known_field_attr(a.path) && !"db."@.is_prefix_of(a.path) {
            rest.push(spec_field_feature(field, a))
        } else {
            rest
        }
    }
}

/// What the fields of a model contribute to its table, accumulated in field order.
pub struct SpecFieldAcc {
    pub columns: Seq<SpecColumn>,
    pub primary_key: Option<SpecPrimaryKey>,
    pub uniques: Seq<SpecUniqueConstraint>,
    pub behaviors: Seq<SpecBehavior>,
    pub ignored: Seq<Seq<char>>,
    pub features: Seq<SpecUnknownFeature>,
}

/// One field's contribution: a relation field (typed by a model) contributes
/// nothing; a scalar field contributes its column, possibly the primary key
/// (`@id`, if none is set yet), a unique constraint (`@unique`), an
/// `UpdatedAt` behavior (`@updatedAt`), its name to the ignored fields
/// (`@ignore`) and its unknown attributes.
pub open spec fn spec_field_step(
    acc: SpecFieldAcc,
    f: SpecRawField,
    models: Seq<SpecRawModel>,
    enums: Seq<Seq<char>>,
    aliases: Seq<SpecRawTypeAlias>,
) -> SpecFieldAcc {
    if spec_has_model(models, f.base_type) {
        acc
    } else {
        let id_attr = spec_field_or_alias_attr(f, aliases, "id"@);
        SpecFieldAcc {
            columns: acc.columns.push(spec_column_of(f, enums, aliases)),
            primary_key: match id_attr {
                Some(a) => if acc.primary_key is None {
                    Some(
                        SpecPrimaryKey {
                            name: spec_named_str(a.args, "map"@),
                            columns: seq![f.name],
                        },
                    )
                } else {
                    acc.primary_key
                },
                None => acc.primary_key,
            },
            uniques: if spec_field_or_alias_attr(f, aliases, "unique"@) is Some {
                acc.uniques.push(SpecUniqueConstraint { name: None, columns: seq![f.name] })
            } else {
                acc.uniques
            },
            behaviors: if spec_field_or_alias_attr(f, aliases, "updatedAt"@) is Some {
                acc.behaviors.push(SpecBehavior::UpdatedAt { column: f.name })
            } else {
                acc.behaviors
            },
            ignored: if spec_find_attr(f.attrs, "ignore"@) is Some {
                acc.ignored.push(f.name)
            } else {
                acc.ignored
            },
            features: acc.features + spec_field_unknowns(f.name, f.attrs),
        }
    }
}

pub open spec fn spec_fields_fold(
    fields: Seq<SpecRawField>,
    models: Seq<SpecRawModel>,
    enums: Seq<Seq<char>>,
    aliases: Seq<SpecRawTypeAlias>,
    init: SpecFieldAcc,
) -> SpecFieldAcc
    decreases fields.len(),
{
    if fields.len() == 0 {
        init
    } else {
        spec_field_step(
            spec_fields_fold(fields.drop_last(), models, enums, aliases, init),
            fields.last(),
            models,
            enums,
            aliases,
        )
    }
}

/// The table of a model before relations are resolved: its naming, columns,
/// keys, unique constraints, indexes, behaviors and metadata.
pub open spec fn spec_build_table(
    m: SpecRawModel,
    models: Seq<SpecRawModel>,
    enums: Seq<Seq<char>>,
    aliases: Seq<SpecRawTypeAlias>,
) -> SpecTable {
    let ba = m.block_attrs;
    let init = SpecFieldAcc {
        columns: Seq::empty(),
        primary_key: spec_block_pk(ba),
        uniques: Seq::empty(),
        behaviors: Seq::empty(),
        ignored: Seq::empty(),
        features: Seq::empty(),
    };
    let acc = spec_fields_fold(m.fields, models, enums, aliases, init);
    let ignore: Seq<SpecUnknownFeature> = if spec_find_attr(ba, "ignore"@) is Some {
        seq![spec_ignore_feature()]
    } else {
        Seq::empty()
    };
    let tail: Seq<SpecUnknownFeature> = if acc.ignored.len() > 0 {
        seq![spec_ignored_fields_feature(acc.ignored)]
    } else {
        Seq::empty()
    };
    SpecTable {
        name: m.name,
        db_name: spec_attr_str(ba, "map"@),
        db_schema: spec_attr_str(ba, "schema"@),
        columns: acc.columns,
        primary_key: acc.primary_key,
        indexes: spec_block_indexes(ba) + spec_block_fulltexts(ba),
        unique_constraints: spec_block_uniques(ba) + acc.uniques,
        check_constraints: Seq::empty(),
        foreign_keys: Seq::empty(),
        relations: Seq::empty(),
        inheritance: None,
        behaviors: acc.behaviors,
        metadata: SpecOrmMetadata {
            source_orm: Some(SpecOrmKind::Prisma),
            target_hints: Seq::empty(),
            unknown_features: ignore + spec_unknown_block_features(ba, false) + acc.features
                + tail,
        },
    }
}

/// What the fields of a model have contributed so far.
pub struct FieldAcc {
    pub columns: Vec<Column>,
    pub primary_key: Option<PrimaryKey>,
    pub uniques: Vec<UniqueConstraint>,
    pub behaviors: Vec<Behavior>,
    pub ignored: Vec<String>,
    pub features: Vec<UnknownFeature>,
}

impl DeepView for FieldAcc {
    type V = SpecFieldAcc;

    open spec fn deep_view(&self) -> SpecFieldAcc {
        SpecFieldAcc {
            columns: self.columns.deep_view(),
            primary_key: self.primary_key.deep_view(),
            uniques: self.uniques.deep_view(),
            behaviors: self.behaviors.deep_view(),
            ignored: self.ignored.deep_view(),
            features: self.features.deep_view(),
        }
    }
}

fn is_known_field_attr(p: &str) -> (r: bool)
    ensures
        r == spec_known_field_attr(p@),
{
    str_eq(p, "id") || str_eq(p, "default") || str_eq(p, "unique") || str_eq(p, "map")
        || str_eq(p, "updatedAt") || str_eq(p, "ignore") || str_eq(p, "relation")
}

/// One feature for each field attribute that is neither known nor a `@db.*` hint.
pub fn field_unknowns(field: &String, attrs: &Vec<RawAttr>) -> (r: Vec<UnknownFeature>)
    ensures
        r.deep_view() == spec_field_unknowns(field@, attrs.deep_view()),
{
    let ghost all = attrs.deep_view();
    let mut out: Vec<UnknownFeature> = Vec::new();
    proof {
        lemma_dv_empty(out);
    }
    let mut i: usize = 0;
    while i < attrs.len()
        invariant
            i <= attrs@.len(),
            all == attrs.deep_view(),
            out.deep_view() == spec_field_unknowns(field@, all.take(i as int)),
        decreases attrs@.len() - i,
    {
        assert(all.take(i + 1).drop_last() =~= all.take(i as int));
        let a = &attrs[i];
        if !is_known_field_attr(a.path.as_str()) && !starts_with(a.path.as_str(), "db.") {
            let prefix = concat("prisma.field.", field.as_str());
            let prefix = concat(prefix.as_str(), ".");
            let f = UnknownFeature {
                name: concat(prefix.as_str(), a.path.as_str()),
                value: raw_args_to_json(&a.args),
                recoverable: true,
            };
            let ghost before = out;
            out.push(f);
            proof {
                lemma_dv_push(before, out, f);
            }
        }
        i = i + 1;
    }
    assert(all.take(attrs@.len() as int) =~= all);
    out
}

fn field_or_alias_attr<'a>(
    f: &'a RawField,
    alias: Option<&'a RawTypeAlias>,
    path: &str,
) -> (r: Option<&'a RawAttr>)
    ensures
        r.deep_view() == match spec_find_attr(f.attrs.deep_view(), path@) {
            Some(a) => Some(a),
            None => match alias {
                Some(al) => spec_find_attr(al.attrs.deep_view(), path@),
                None => None,
            },
        },
{
    match find_attr(&f.attrs, path) {
        Some(a) => Some(a),
        None => match alias {
            Some(al) => find_attr(&al.attrs, path),
            None => None,
        },
    }
}

/// A one-element list holding a copy of `s`.
pub fn single_string(s: &String) -> (r: Vec<String>)
    ensures
        r.deep_view() == seq![s@],
{
    let mut v: Vec<String> = Vec::new();
    proof {
        lemma_dv_empty(v);
    }
    let c = s.clone();
    let ghost before = v;
    v.push(c);
    proof {
        lemma_dv_push(before, v, c);
        assert(before.deep_view().push(c@) =~= seq![s@]);
    }
    v
}

/// Adds one field's contribution to the accumulated table parts.
pub fn field_step(
    acc: &mut FieldAcc,
    f: &RawField,
    models: &Vec<RawModel>,
    enums: &Vec<String>,
    aliases: &Vec<RawTypeAlias>,
)
    ensures
        final(acc).deep_view() == spec_field_step(
            old(acc).deep_view(),
            f.deep_view(),
            models.deep_view(),
            enums.deep_view(),
            aliases.deep_view(),
        ),
{
    if has_model(models, f.base_type.as_str()) {
        return;
    }
    let alias = find_alias(aliases, f.base_type.as_str());
    let col = column_of(f, enums, aliases);
    let ghost c0 = acc.columns;
    acc.columns.push(col);
    proof {
        lemma_dv_push(c0, acc.columns, col);
    }
    let id_attr = field_or_alias_attr(f, alias, "id");
    if let Some(a) = id_attr {
        if acc.primary_key.is_none() {
            acc.primary_key = Some(
                PrimaryKey { name: a.named_str("map"), columns: single_string(&f.name) },
            );
        }
    }
    if field_or_alias_attr(f, alias, "unique").is_some() {
        let u = UniqueConstraint { name: None, columns: single_string(&f.name) };
        let ghost u0 = acc.uniques;
        acc.uniques.push(u);
        proof {
            lemma_dv_push(u0, acc.uniques, u);
        }
    }
    if field_or_alias_attr(f, alias, "updatedAt").is_some() {
        let b = Behavior::UpdatedAt { column: f.name.clone() };
        let ghost b0 = acc.behaviors;
        acc.behaviors.push(b);
        proof {
            lemma_dv_push(b0, acc.behaviors, b);
        }
    }
    if find_attr(&f.attrs, "ignore").is_some() {
        let n = f.name.clone();
        let ghost i0 = acc.ignored;
        acc.ignored.push(n);
        proof {
            lemma_dv_push(i0, acc.ignored, n);
        }
    }
    let fu = field_unknowns(&f.name, &f.attrs);
    let ghost f0 = acc.features;
    append_all(&mut acc.features, fu);
    proof {
        lemma_dv_append(f0, fu, acc.features);
    }
}

/// The initial accumulator of a model's field loop.
pub open spec fn spec_field_init(ba: Seq<SpecRawAttr>) -> SpecFieldAcc {
    SpecFieldAcc {
        columns: Seq::empty(),
        primary_key: spec_block_pk(ba),
        uniques: Seq::empty(),
        behaviors: Seq::empty(),
        ignored: Seq::empty(),
        features: Seq::empty(),
    }
}

/// Builds the table of a model, without its foreign keys and relations.
pub fn build_scalar_table(
    raw: &RawModel,
    models: &Vec<RawModel>,
    enums: &Vec<String>,
    aliases: &Vec<RawTypeAlias>,
) -> (r: Table)
    ensures
        r.deep_view() == spec_build_table(
            raw.deep_view(),
            models.deep_view(),
            enums.deep_view(),
            aliases.deep_view(),
        ),
{
    let ghost m = raw.deep_view();
    let ghost ms = models.deep_view();
    let ghost es = enums.deep_view();
    let ghost als = aliases.deep_view();
    let ghost fields = raw.fields.deep_view();
    let (db_name, db_schema) = extract_db_naming(&raw.block_attrs);
    let mut acc = FieldAcc {
        columns: Vec::new(),
        primary_key: block_pk(&raw.block_attrs),
        uniques: Vec::new(),
        behaviors: Vec::new(),
        ignored: Vec::new(),
        features: Vec::new(),
    };
    proof {
        lemma_dv_empty(acc.columns);
        lemma_dv_empty(acc.uniques);
        lemma_dv_empty(acc.behaviors);
        lemma_dv_empty(acc.ignored);
        lemma_dv_empty(acc.features);
        assert(fields.take(0) =~= Seq::<SpecRawField>::empty());
    }
    let mut i: usize = 0;
    while i < raw.fields.len()
        invariant
            i <= raw.fields@.len(),
            m == raw.deep_view(),
            ms == models.deep_view(),
            es == enums.deep_view(),
            als == aliases.deep_view(),
            fields == raw.fields.deep_view(),
            acc.deep_view() == spec_fields_fold(
                fields.take(i as int),
                ms,
                es,
                als,
                spec_field_init(m.block_attrs),
            ),
        decreases raw.fields@.len() - i,
    {
        assert(fields.take(i + 1).drop_last() =~= fields.take(i as int));
        field_step(&mut acc, &raw.fields[i], models, enums, aliases);
        i = i + 1;
    }
    assert(fields.take(raw.fields@.len() as int) =~= fields);
    let mut features: Vec<UnknownFeature> = Vec::new();
    proof {
        lemma_dv_empty(features);
    }
    if find_attr(&raw.block_attrs, "ignore").is_some() {
        let f = ignore_feature();
        let ghost f0 = features;
        features.push(f);
        proof {
            lemma_dv_push(f0, features, f);
            assert(features.deep_view() =~= seq![spec_ignore_feature()]);
        }
    }
    let ub = unknown_block_features(&raw.block_attrs, false);
    let ghost f1 = features;
    append_all(&mut features, ub);
    proof {
        lemma_dv_append(f1, ub, features);
    }
    let ghost f2 = features;
    let ignored_len = acc.ignored.len();
    let tail_feature = if ignored_len > 0 {
        Some(ignored_fields_feature(&acc.ignored))
    } else {
        None
    };
    let FieldAcc { columns, primary_key, uniques: field_uniques, behaviors, ignored: _, features: ff } = acc;
    append_all(&mut features, ff);
    proof {
        lemma_dv_append(f2, ff, features);
    }
    let ghost f3 = features;
    if let Some(tf) = tail_feature {
        features.push(tf);
        proof {
            lemma_dv_push(f3, features, tf);
        }
    }
    let mut uniques = block_uniques(&raw.block_attrs);
    let ghost u0 = uniques;
    append_all(&mut uniques, field_uniques);
    proof {
        lemma_dv_append(u0, field_uniques, uniques);
    }
    let check_constraints: Vec<crate::pivot::table::CheckConstraint> = Vec::new();
    let foreign_keys: Vec<crate::pivot::relation::ForeignKey> = Vec::new();
    let relations: Vec<crate::pivot::relation::Relation> = Vec::new();
    let target_hints: Vec<(String, JsonValue)> = Vec::new();
    proof {
        lemma_dv_empty(foreign_keys);
        lemma_dv_empty(relations);
    }
    let t = Table {
        name: raw.name.clone(),
        db_name,
        db_schema,
        columns,
        primary_key,
        indexes: block_indexes(&raw.block_attrs),
        unique_constraints: uniques,
        check_constraints,
        foreign_keys,
        relations,
        inheritance: None,
        behaviors,
        metadata: OrmMetadata {
            source_orm: Some(OrmKind::Prisma),
            target_hints,
            unknown_features: features,
        },
    };
    proof {
        assert(t.check_constraints@ =~= Seq::<crate::pivot::table::CheckConstraint>::empty());
        assert(t.metadata.target_hints@ =~= Seq::<(String, JsonValue)>::empty());
        assert(t.deep_view().metadata.target_hints =~= Seq::<(Seq<char>, SpecJson)>::empty());
        assert(t.deep_view().metadata.unknown_features =~= spec_build_table(m, ms, es, als).metadata.unknown_features);
    }
    t
}

} // verus!
