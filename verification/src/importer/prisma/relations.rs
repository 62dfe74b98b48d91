//! Relation resolution: foreign keys, one-to-one / one-to-many relations and
//! implicit many-to-many relations between models.
use vstd::prelude::*;
use super::ast::{
    find_attr, spec_as_ident, spec_as_str, spec_as_string_array, spec_find_attr,
    spec_first_positional, spec_first_positional_str, spec_named, spec_named_str, RawAttr,
    RawField, RawModel, RawValue, SpecRawAttr, SpecRawField, SpecRawModel,
};
use super::mappers::{parse_referential_action, spec_parse_referential_action};
use super::scalar_table::{find_model, has_model, spec_first_model, spec_has_model};
use crate::pivot::relation::{
    CascadeOptions, ForeignKey, JunctionTable, ReferentialAction, Relation, RelationKind,
    SpecForeignKey, SpecJunctionTable, SpecRelation, SpecRelationKind,
};
use crate::text::{
    concat, copy_opt_string, copy_strings, lemma_dv_empty, lemma_dv_push, spec_str_le, str_eq,
    str_le,
};

verus! {

// ── Collected relation declarations ────────────────────────────────────────

/// A relation field that declares `@relation(fields: [...], ...)` on its owner model.
#[derive(Debug)]
pub struct RelInfo {
    pub owner: String,
    pub target: String,
    pub owner_cols: Vec<String>,
    pub target_refs: Vec<String>,
    pub on_delete: Option<ReferentialAction>,
    pub on_update: Option<ReferentialAction>,
    pub rel_name: Option<String>,
    pub fk_name: Option<String>,
}

/// Model of a [`RelInfo`].
pub struct SpecRelInfo {
    pub owner: Seq<char>,
    pub target: Seq<char>,
    pub owner_cols: Seq<Seq<char>>,
    pub target_refs: Seq<Seq<char>>,
    pub on_delete: Option<ReferentialAction>,
    pub on_update: Option<ReferentialAction>,
    pub rel_name: Option<Seq<char>>,
    pub fk_name: Option<Seq<char>>,
}

impl DeepView for RelInfo {
    type V = SpecRelInfo;

    open spec fn deep_view(&self) -> SpecRelInfo {
        SpecRelInfo {
            owner: self.owner@,
            target: self.target@,
            owner_cols: self.owner_cols.deep_view(),
            target_refs: self.target_refs.deep_view(),
            on_delete: self.on_delete,
            on_update: self.on_update,
            rel_name: self.rel_name.deep_view(),
            fk_name: self.fk_name.deep_view(),
        }
    }
}

/// The relation declarations and implicit many-to-many pairs of a schema.
pub struct SpecCollect {
    pub rels: Seq<SpecRelInfo>,
    pub m2m: Seq<(Seq<char>, Seq<char>, Option<Seq<char>>)>,
}

/// The name of a relation attribute: `name:` if it is a string, else the first
/// positional string.
pub open spec fn spec_relation_name(a: SpecRawAttr) -> Option<Seq<char>> {
    match spec_named_str(a.args, "name"@) {
        Some(n) => Some(n),
        None => spec_first_positional_str(a.args),
    }
}

/// The relation name of a field as its back side sees it: the `name:` argument
/// of its `@relation`, else its first positional argument, if that is a string.
pub open spec fn spec_field_rel_name(f: SpecRawField) -> Option<Seq<char>> {
    match spec_find_attr(f.attrs, "relation"@) {
        Some(a) => match spec_named(a.args, "name"@) {
            Some(v) => spec_as_str(v),
            None => match spec_first_positional(a.args) {
                Some(v) => spec_as_str(v),
                None => None,
            },
        },
        None => None,
    }
}

pub open spec fn spec_action_arg(a: SpecRawAttr, key: Seq<char>) -> Option<ReferentialAction> {
    match spec_named(a.args, key) {
        Some(v) => match spec_as_ident(v) {
            Some(s) => spec_parse_referential_action(s),
            None => None,
        },
        None => None,
    }
}

pub open spec fn spec_names_arg(a: SpecRawAttr, key: Seq<char>) -> Seq<Seq<char>> {
    match spec_named(a.args, key) {
        Some(v) => spec_as_string_array(v),
        None => Seq::empty(),
    }
}

/// Whether `other` has a list field typed by the model `owner`.
pub open spec fn spec_other_is_array(other: SpecRawModel, owner: Seq<char>) -> bool {
    exists|j: int|
        0 <= j < other.fields.len() && other.fields[j].base_type == owner
            && other.fields[j].is_array
}

/// Whether `other` has a field typed by `owner` whose `@relation` gives `fields:`.
pub open spec fn spec_other_has_fk(other: SpecRawModel, owner: Seq<char>) -> bool {
    exists|j: int|
        0 <= j < other.fields.len() && other.fields[j].base_type == owner && match spec_find_attr(
            other.fields[j].attrs,
            "relation"@,
        ) {
            Some(a) => spec_named(a.args, "fields"@) is Some,
            None => false,
        }
}

/// The implicit many-to-many key of two model names: sorted names and a relation name.
pub open spec fn spec_m2m_key(a: Seq<char>, b: Seq<char>, rn: Option<Seq<char>>) -> (
    Seq<char>,
    Seq<char>,
    Option<Seq<char>>,
) {
    if spec_str_le(a, b) {
        (a, b, rn)
    } else {
        (b, a, rn)
    }
}

/// What a list field of model `m` that declares no foreign key adds: an
/// implicit many-to-many pair (once), when the model it names lists `m` back
/// and has no foreign key to `m`. The pair carries the field's relation name.
pub open spec fn spec_m2m_step(
    models: Seq<SpecRawModel>,
    m: SpecRawModel,
    f: SpecRawField,
    acc: SpecCollect,
) -> SpecCollect {
    let (is_arr, has_fk) = match spec_first_model(models, f.base_type) {
        Some(other) => (spec_other_is_array(other, m.name), spec_other_has_fk(other, m.name)),
        None => (false, false),
    };
    if f.is_array && is_arr && !has_fk {
        let key = spec_m2m_key(m.name, f.base_type, spec_field_rel_name(f));
        if acc.m2m.contains(key) {
            acc
        } else {
            SpecCollect { rels: acc.rels, m2m: acc.m2m.push(key) }
        }
    } else {
        acc
    }
}

/// What one field of model `m` adds to the collected declarations: a relation
/// field with `@relation(fields: [..])` adds a declaration; any other list
/// field typed by a model may add an implicit many-to-many pair.
pub open spec fn spec_collect_step(
    models: Seq<SpecRawModel>,
    m: SpecRawModel,
    f: SpecRawField,
    acc: SpecCollect,
) -> SpecCollect {
    if !spec_has_model(models, f.base_type) {
        acc
    } else {
        match spec_find_attr(f.attrs, "relation"@) {
            Some(ra) => {
                let owner_cols = spec_names_arg(ra, "fields"@);
                if owner_cols.len() == 0 {
                    spec_m2m_step(models, m, f, acc)
                } else {
                    SpecCollect {
                        rels: acc.rels.push(
                            SpecRelInfo {
                                owner: m.name,
                                target: f.base_type,
                                owner_cols,
                                target_refs: spec_names_arg(ra, "references"@),
                                on_delete: spec_action_arg(ra, "onDelete"@),
                                on_update: spec_action_arg(ra, "onUpdate"@),
                                rel_name: spec_relation_name(ra),
                                fk_name: spec_named_str(ra.args, "map"@),
                            },
                        ),
                        m2m: acc.m2m,
                    }
                }
            },
            None => spec_m2m_step(models, m, f, acc),
        }
    }
}

pub open spec fn spec_collect_fields(
    models: Seq<SpecRawModel>,
    m: SpecRawModel,
    fields: Seq<SpecRawField>,
    acc: SpecCollect,
) -> SpecCollect
    decreases fields.len(),
{
    if fields.len() == 0 {
        acc
    } else {
        spec_collect_step(
            models,
            m,
            fields.last(),
            spec_collect_fields(models, m, fields.drop_last(), acc),
        )
    }
}

/// The declarations collected from the models `upto`, in model and field order.
pub open spec fn spec_collect_models(models: Seq<SpecRawModel>, upto: Seq<SpecRawModel>) -> SpecCollect
    decreases upto.len(),
{
    if upto.len() == 0 {
        SpecCollect { rels: Seq::empty(), m2m: Seq::empty() }
    } else {
        spec_collect_fields(
            models,
            upto.last(),
            upto.last().fields,
            spec_collect_models(models, upto.drop_last()),
        )
    }
}

// ── Per-table foreign keys and relations ───────────────────────────────────

pub open spec fn spec_fk_of(ri: SpecRelInfo) -> SpecForeignKey {
    SpecForeignKey {
        name: ri.fk_name,
        columns: ri.owner_cols,
        referenced_table: ri.target,
        referenced_columns: ri.target_refs,
        on_delete: ri.on_delete,
        on_update: ri.on_update,
    }
}

/// The foreign keys of the table of model `name`: one per declaration it owns, in order.
pub open spec fn spec_fks_for(rels: Seq<SpecRelInfo>, name: Seq<char>) -> Seq<SpecForeignKey>
    decreases rels.len(),
{
    if rels.len() == 0 {
        Seq::empty()
    } else {
        let rest = spec_fks_for(rels.drop_last(), name);
        if rels.last().owner == name {
            rest.push(spec_fk_of(rels.last()))
        } else {
            rest
        }
    }
}

pub open spec fn spec_names_match(a: Option<Seq<char>>, b: Option<Seq<char>>) -> bool {
    match (a, b) {
        (Some(x), Some(y)) => x == y,
        (None, None) => true,
        _ => false,
    }
}

/// The first field typed by `name` whose relation name matches `rn`.
pub open spec fn spec_back_field(
    fields: Seq<SpecRawField>,
    name: Seq<char>,
    rn: Option<Seq<char>>,
) -> Option<SpecRawField>
    decreases fields.len(),
{
    if fields.len() == 0 {
        None
    } else if fields[0].base_type == name && spec_names_match(rn, spec_field_rel_name(fields[0])) {
        Some(fields[0])
    } else {
        spec_back_field(fields.drop_first(), name, rn)
    }
}

/// The relation that a declaration gives both of its tables. Its kind is its
/// cardinality, read from the target model's field back to the owner (with the
/// same relation name): one-to-many when that field is a list or absent,
/// one-to-one (owned by the declaring model) when it is a single field.
pub open spec fn spec_relation_of(ri: SpecRelInfo, models: Seq<SpecRawModel>) -> SpecRelation {
    let back = match spec_first_model(models, ri.target) {
        Some(om) => spec_back_field(om.fields, ri.owner, ri.rel_name),
        None => None,
    };
    let back_is_array = match back {
        Some(f) => f.is_array,
        None => true,
    };
    SpecRelation {
        name: ri.rel_name,
        kind: if back_is_array {
            SpecRelationKind::OneToMany
        } else {
            SpecRelationKind::OneToOne { owner_table: ri.owner }
        },
        from_table: ri.target,
        from_fields: ri.target_refs,
        to_table: ri.owner,
        to_fields: ri.owner_cols,
        cascade: CascadeOptions { on_delete: ri.on_delete, on_update: ri.on_update },
    }
}

/// The relations of the table of model `name` from the declarations it owns or is targeted by.
pub open spec fn spec_rels_for(
    rels: Seq<SpecRelInfo>,
    name: Seq<char>,
    models: Seq<SpecRawModel>,
) -> Seq<SpecRelation>
    decreases rels.len(),
{
    if rels.len() == 0 {
        Seq::empty()
    } else {
        let rest = spec_rels_for(rels.drop_last(), name, models);
        let ri = rels.last();
        if ri.owner == name || ri.target == name {
            rest.push(spec_relation_of(ri, models))
        } else {
            rest
        }
    }
}

/// The implicit many-to-many relation of a pair, seen from model `ours`.
pub open spec fn spec_m2m_relation(
    key: (Seq<char>, Seq<char>, Option<Seq<char>>),
    ours: Seq<char>,
    other: Seq<char>,
) -> SpecRelation {
    SpecRelation {
        name: key.2,
        kind: SpecRelationKind::ManyToMany {
            junction: SpecJunctionTable {
                table: "_"@ + key.0 + "To"@ + key.1,
                from_column: "A"@,
                to_column: "B"@,
            },
            implicit: true,
        },
        from_table: ours,
        from_fields: Seq::empty(),
        to_table: other,
        to_fields: Seq::empty(),
        cascade: CascadeOptions { on_delete: None, on_update: None },
    }
}

/// The implicit many-to-many relations of model `name`, one per pair it is part of.
pub open spec fn spec_m2m_for(
    keys: Seq<(Seq<char>, Seq<char>, Option<Seq<char>>)>,
    name: Seq<char>,
) -> Seq<SpecRelation>
    decreases keys.len(),
{
    if keys.len() == 0 {
        Seq::empty()
    } else {
        let rest = spec_m2m_for(keys.drop_last(), name);
        let k = keys.last();
        if k.0 == name {
            rest.push(spec_m2m_relation(k, k.0, k.1))
        } else if k.1 == name {
            rest.push(spec_m2m_relation(k, k.1, k.0))
        } else {
            rest
        }
    }
}

// ── Executable code ────────────────────────────────────────────────────────

fn relation_name(a: &RawAttr) -> (r: Option<String>)
    ensures
        r.deep_view() == spec_relation_name(a.deep_view()),
{
    match a.named_str("name") {
        Some(n) => Some(n),
        None => a.first_positional_str(),
    }
}

fn field_rel_name(f: &RawField) -> (r: Option<String>)
    ensures
        r.deep_view() == spec_field_rel_name(f.deep_view()),
{
    match find_attr(&f.attrs, "relation") {
        Some(a) => match a.named("name") {
            Some(v) => v.as_str(),
            None => match a.first_positional() {
                Some(v) => v.as_str(),
                None => None,
            },
        },
        None => None,
    }
}

fn action_arg(a: &RawAttr, key: &str) -> (r: Option<ReferentialAction>)
    ensures
        r == spec_action_arg(a.deep_view(), key@),
{
    match a.named(key) {
        Some(v) => match v.as_ident() {
            Some(s) => parse_referential_action(s.as_str()),
            None => None,
        },
        None => None,
    }
}

fn names_arg(a: &RawAttr, key: &str) -> (r: Vec<String>)
    ensures
        r.deep_view() == spec_names_arg(a.deep_view(), key@),
{
    match a.named(key) {
        Some(v) => v.as_string_array(),
        None => Vec::new(),
    }
}

fn other_is_array(other: &RawModel, owner: &str) -> (r: bool)
    ensures
        r == spec_other_is_array(other.deep_view(), owner@),
{
    let ghost fs = other.fields.deep_view();
    let mut i: usize = 0;
    while i < other.fields.len()
        invariant
            i <= other.fields@.len(),
            fs == other.fields.deep_view(),
            forall|j: int| 0 <= j < i ==> !(fs[j].base_type == owner@ && fs[j].is_array),
        decreases other.fields@.len() - i,
    {
        let f = &other.fields[i];
        if str_eq(f.base_type.as_str(), owner) && f.is_array {
            assert(fs[i as int].base_type == owner@ && fs[i as int].is_array);
            return true;
        }
        i = i + 1;
    }
    false
}

fn other_has_fk(other: &RawModel, owner: &str) -> (r: bool)
    ensures
        r == spec_other_has_fk(other.deep_view(), owner@),
{
    let ghost fs = other.fields.deep_view();
    let mut i: usize = 0;
    while i < other.fields.len()
        invariant
            i <= other.fields@.len(),
            fs == other.fields.deep_view(),
            forall|j: int|
                0 <= j < i ==> !(fs[j].base_type == owner@ && match spec_find_attr(
                    fs[j].attrs,
                    "relation"@,
                ) {
                    Some(a) => spec_named(a.args, "fields"@) is Some,
                    None => false,
                }),
        decreases other.fields@.len() - i,
    {
        let f = &other.fields[i];
        if str_eq(f.base_type.as_str(), owner) {
            if let Some(a) = find_attr(&f.attrs, "relation") {
                if a.named("fields").is_some() {
                    assert(fs[i as int].attrs == f.attrs.deep_view());
                    assert(fs[i as int].base_type == owner@ && match spec_find_attr(
                        fs[i as int].attrs,
                        "relation"@,
                    ) {
                        Some(a) => spec_named(a.args, "fields"@) is Some,
                        None => false,
                    });
                    return true;
                }
            }
        }
        i = i + 1;
    }
    false
}

fn m2m_contains(keys: &Vec<(String, String, Option<String>)>, key: &(String, String, Option<String>)) -> (r: bool)
    ensures
        r == keys.deep_view().contains(key.deep_view()),
{
    let mut i: usize = 0;
    while i < keys.len()
        invariant
            i <= keys@.len(),
            forall|j: int| 0 <= j < i ==> keys.deep_view()[j] != key.deep_view(),
        decreases keys@.len() - i,
    {
        let k = &keys[i];
        let same_names = str_eq(k.0.as_str(), key.0.as_str()) && str_eq(k.1.as_str(), key.1.as_str());
        let same_rel = match (&k.2, &key.2) {
            (Some(x), Some(y)) => str_eq(x.as_str(), y.as_str()),
            (None, None) => true,
            _ => false,
        };
        if same_names && same_rel {
            assert(keys.deep_view()[i as int] == key.deep_view());
            return true;
        }
        i = i + 1;
    }
    false
}

/// The relation declarations collected so far.
pub struct Collect {
    pub rels: Vec<RelInfo>,
    pub m2m: Vec<(String, String, Option<String>)>,
}

impl DeepView for Collect {
    type V = SpecCollect;

    open spec fn deep_view(&self) -> SpecCollect {
        SpecCollect { rels: self.rels.deep_view(), m2m: self.m2m.deep_view() }
    }
}

/// Adds what one field of model `m` declares.
fn m2m_step(models: &Vec<RawModel>, m: &RawModel, f: &RawField, acc: &mut Collect)
    ensures
        final(acc).deep_view() == spec_m2m_step(
            models.deep_view(),
            m.deep_view(),
            f.deep_view(),
            old(acc).deep_view(),
        ),
{
    let (is_arr, has_fk) = match find_model(models, f.base_type.as_str()) {
        Some(other) => (other_is_array(other, m.name.as_str()), other_has_fk(other, m.name.as_str())),
        None => (false, false),
    };
    if f.is_array && is_arr && !has_fk {
        let rn = field_rel_name(f);
        let key = if str_le(m.name.as_str(), f.base_type.as_str()) {
            (m.name.clone(), f.base_type.clone(), rn)
        } else {
            (f.base_type.clone(), m.name.clone(), rn)
        };
        if !m2m_contains(&acc.m2m, &key) {
            let ghost k0 = acc.m2m;
            acc.m2m.push(key);
            proof {
                lemma_dv_push(k0, acc.m2m, key);
            }
        }
    }
}

pub fn collect_step(models: &Vec<RawModel>, m: &RawModel, f: &RawField, acc: &mut Collect)
    ensures
        final(acc).deep_view() == spec_collect_step(
            models.deep_view(),
            m.deep_view(),
            f.deep_view(),
            old(acc).deep_view(),
        ),
{
    if !has_model(models, f.base_type.as_str()) {
        return;
    }
    match find_attr(&f.attrs, "relation") {
        Some(ra) => {
            let owner_cols = names_arg(ra, "fields");
            if owner_cols.len() == 0 {
                m2m_step(models, m, f, acc);
                return;
            }
            let ri = RelInfo {
                owner: m.name.clone(),
                target: f.base_type.clone(),
                owner_cols,
                target_refs: names_arg(ra, "references"),
                on_delete: action_arg(ra, "onDelete"),
                on_update: action_arg(ra, "onUpdate"),
                rel_name: relation_name(ra),
                fk_name: ra.named_str("map"),
            };
            let ghost r0 = acc.rels;
            acc.rels.push(ri);
            proof {
                lemma_dv_push(r0, acc.rels, ri);
            }
        },
        None => {
            m2m_step(models, m, f, acc);
        },
    }
}

/// Collects the relation declarations of all models, in model and field order.
pub fn collect_relations(models: &Vec<RawModel>) -> (r: Collect)
    ensures
        r.deep_view() == spec_collect_models(models.deep_view(), models.deep_view()),
{
    let ghost ms = models.deep_view();
    let mut acc = Collect { rels: Vec::new(), m2m: Vec::new() };
    proof {
        lemma_dv_empty(acc.rels);
        lemma_dv_empty(acc.m2m);
        assert(ms.take(0) =~= Seq::<SpecRawModel>::empty());
    }
    let mut i: usize = 0;
    while i < models.len()
        invariant
            i <= models@.len(),
            ms == models.deep_view(),
            acc.deep_view() == spec_collect_models(ms, ms.take(i as int)),
        decreases models@.len() - i,
    {
        let m = &models[i];
        let ghost mv = m.deep_view();
        let ghost fs = m.fields.deep_view();
        let ghost start = acc.deep_view();
        assert(ms.take(i + 1).drop_last() =~= ms.take(i as int));
        assert(ms.take(i + 1).last() == mv);
        assert(fs.take(0) =~= Seq::<SpecRawField>::empty());
        let mut j: usize = 0;
        while j < m.fields.len()
            invariant
                j <= m.fields@.len(),
                ms == models.deep_view(),
                mv == m.deep_view(),
                fs == m.fields.deep_view(),
                acc.deep_view() == spec_collect_fields(ms, mv, fs.take(j as int), start),
            decreases m.fields@.len() - j,
        {
            assert(fs.take(j + 1).drop_last() =~= fs.take(j as int));
            collect_step(models, m, &m.fields[j], &mut acc);
            j = j + 1;
        }
        assert(fs.take(m.fields@.len() as int) =~= fs);
        i = i + 1;
    }
    assert(ms.take(models@.len() as int) =~= ms);
    acc
}

/// The relation name of a field as its back side sees it.
pub fn field_rel_name_pub(f: &RawField) -> (r: Option<String>)
    ensures
        r.deep_view() == spec_field_rel_name(f.deep_view()),
{
    field_rel_name(f)
}

} // verus!
