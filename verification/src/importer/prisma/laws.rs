//! Properties of the Prisma importer that hold for every schema.
use vstd::prelude::*;
use super::ast::{SpecEnumEntry, SpecRawAttr, SpecRawField, SpecRawModel, SpecRawTypeAlias};
use super::ast::SpecRawArg;
use super::mappers::{
    spec_args_object, spec_args_to_json, spec_named_object, spec_positional_json,
    spec_positional_values,
    spec_value_json,
};
use super::parser::SpecDoc;
use crate::json::{keys_sorted, law_members_insert, member_value, SpecJson};
use super::ast::{
    spec_as_string_array, spec_find_attr, spec_first_positional, spec_named, spec_named_str,
    SpecRawValue,
};
use super::scalar_table::{spec_field_or_alias_attr, spec_find_alias, spec_find_prefixed};
use super::mappers::{spec_map_db_hint, spec_map_default_value, spec_map_scalar_type};
use super::ast::spec_first_positional_str;
use crate::pivot::types::SpecScalarType;
use crate::pivot::table::{SpecBehavior, SpecIndex, SpecIndexType, SpecUniqueConstraint};
use super::mappers::{spec_index_columns, spec_map_index_type};
use super::scalar_table::{
    spec_block_fulltexts, spec_block_indexes, spec_block_uniques, spec_cols_value,
    spec_fulltext_of, spec_index_of, spec_unique_of,
};
use crate::pivot::table::SpecPrimaryKey;
use super::mappers::spec_parse_referential_action;
use crate::pivot::relation::{CascadeOptions, ReferentialAction, SpecForeignKey};
use super::relations::{
    spec_action_arg, spec_collect_fields, spec_collect_models, spec_collect_step,
    spec_field_rel_name, spec_m2m_key, spec_names_arg,
    spec_fk_of, spec_fks_for, spec_m2m_for, spec_m2m_relation, spec_relation_name,
    spec_relation_of, spec_rels_for, SpecCollect, SpecRelInfo,
};
use crate::pivot::relation::{SpecJunctionTable, SpecRelationKind};
use crate::text::{lemma_str_le_total, spec_str_le};
use super::resolver::{spec_enum_entries, spec_resolve_models, spec_resolved_table};
use super::scalar_table::{
    spec_build_table, spec_column_of, spec_field_init, spec_field_step, spec_fields_fold,
    spec_block_feature, spec_field_feature, spec_field_unknowns, spec_first_model,
    spec_has_model, spec_ignore_feature, spec_ignored_fields_feature, spec_known_block_attr,
    spec_known_field_attr, spec_unknown_block_features, SpecFieldAcc,
};
use super::spec_resolve_doc;
use crate::pivot::metadata::{SpecOrmKind, SpecUnknownFeature};
use crate::pivot::table::SpecColumn;

verus! {

/// The fields of a model that become columns: those not typed by a model, in order.
pub open spec fn spec_scalar_fields(fields: Seq<SpecRawField>, models: Seq<SpecRawModel>) -> Seq<
    SpecRawField,
>
    decreases fields.len(),
{
    if fields.len() == 0 {
        Seq::empty()
    } else {
        let rest = spec_scalar_fields(fields.drop_last(), models);
        if spec_has_model(models, fields.last().base_type) {
            rest
        } else {
            rest.push(fields.last())
        }
    }
}

proof fn lemma_fold_columns(
    fields: Seq<SpecRawField>,
    models: Seq<SpecRawModel>,
    enums: Seq<Seq<char>>,
    aliases: Seq<SpecRawTypeAlias>,
    init: SpecFieldAcc,
)
    ensures
        spec_fields_fold(fields, models, enums, aliases, init).columns == init.columns
            + spec_scalar_fields(fields, models).map_values(
            |f: SpecRawField| spec_column_of(f, enums, aliases),
        ),
    decreases fields.len(),
{
    if fields.len() > 0 {
        lemma_fold_columns(fields.drop_last(), models, enums, aliases, init);
        let rest = spec_scalar_fields(fields.drop_last(), models);
        let f = fields.last();
        let cols = |f: SpecRawField| spec_column_of(f, enums, aliases);
        if !spec_has_model(models, f.base_type) {
            assert(rest.push(f).map_values(cols) =~= rest.map_values(cols).push(cols(f)));
            assert(init.columns + rest.map_values(cols).push(cols(f)) =~= (init.columns
                + rest.map_values(cols)).push(cols(f)));
        }
    }
}

/// Every field of a model that is not typed by another model gives exactly
/// one column of the model's table, named after the field, in field order;
/// relation fields give none.
pub proof fn law_one_column_per_scalar_field(
    m: SpecRawModel,
    models: Seq<SpecRawModel>,
    enums: Seq<Seq<char>>,
    aliases: Seq<SpecRawTypeAlias>,
)
    ensures
        ({
            let t = spec_build_table(m, models, enums, aliases);
            let sf = spec_scalar_fields(m.fields, models);
            &&& t.columns.len() == sf.len()
            &&& forall|i: int|
                0 <= i < sf.len() ==> (#[trigger] t.columns[i]) == spec_column_of(
                    sf[i],
                    enums,
                    aliases,
                ) && t.columns[i].name == sf[i].name
        }),
{
    let init = SpecFieldAcc {
        columns: Seq::empty(),
        primary_key: super::scalar_table::spec_block_pk(m.block_attrs),
        uniques: Seq::empty(),
        behaviors: Seq::empty(),
        ignored: Seq::empty(),
        features: Seq::empty(),
    };
    lemma_fold_columns(m.fields, models, enums, aliases, init);
    let sf = spec_scalar_fields(m.fields, models);
    assert(Seq::<SpecColumn>::empty() + sf.map_values(
        |f: SpecRawField| spec_column_of(f, enums, aliases),
    ) =~= sf.map_values(|f: SpecRawField| spec_column_of(f, enums, aliases)));
}

proof fn lemma_enum_entries_name(name: Seq<char>, entries: Seq<SpecEnumEntry>)
    ensures
        spec_enum_entries(name, entries).name == name,
    decreases entries.len(),
{
    if entries.len() > 0 {
        lemma_enum_entries_name(name, entries.drop_last());
    }
}

/// An imported schema has one table per model block, in block order, each
/// named after its model and recorded as coming from Prisma; one view per
/// view block and one enum per enum block, in order; the target hints of
/// every table and view have sorted, distinct keys.
pub proof fn law_tables_follow_models(d: SpecDoc)
    ensures
        ({
            let s = spec_resolve_doc(d);
            &&& s.tables.len() == d.models.len()
            &&& s.views.len() == d.views.len()
            &&& s.enums.len() == d.enums.len()
            &&& forall|i: int|
                0 <= i < d.models.len() ==> (#[trigger] s.tables[i]).name == d.models[i].name
                    && s.tables[i].metadata.source_orm == Some(SpecOrmKind::Prisma)
            &&& forall|i: int| 0 <= i < d.enums.len() ==> (#[trigger] s.enums[i]).name == d.enums[i].name
            &&& forall|i: int| 0 <= i < d.views.len() ==> (#[trigger] s.views[i]).name == d.views[i].name
            &&& forall|i: int|
                0 <= i < d.models.len() ==> keys_sorted((#[trigger] s.tables[i]).metadata.target_hints)
            &&& forall|i: int|
                0 <= i < d.views.len() ==> keys_sorted((#[trigger] s.views[i]).metadata.target_hints)
        }),
{
    let s = spec_resolve_doc(d);
    assert forall|i: int| 0 <= i < d.enums.len() implies (#[trigger] s.enums[i]).name
        == d.enums[i].name by {
        lemma_enum_entries_name(d.enums[i].name, d.enums[i].entries);
    }
}

// ── Relations ──────────────────────────────────────────────────────────────

/// The declaration that a relation field with `@relation(fields: [..], ..)`
/// on model `m` contributes.
pub open spec fn spec_rel_info_of(m: SpecRawModel, f: SpecRawField, ra: SpecRawAttr) -> SpecRelInfo {
    SpecRelInfo {
        owner: m.name,
        target: f.base_type,
        owner_cols: spec_names_arg(ra, "fields"@),
        target_refs: spec_names_arg(ra, "references"@),
        on_delete: spec_action_arg(ra, "onDelete"@),
        on_update: spec_action_arg(ra, "onUpdate"@),
        rel_name: spec_relation_name(ra),
        fk_name: spec_named_str(ra.args, "map"@),
    }
}

/// Whether field `f` of model `m` declares a foreign key: it is typed by a
/// model and its `@relation` names its `fields:`.
pub open spec fn spec_declares_fk(models: Seq<SpecRawModel>, f: SpecRawField) -> bool {
    &&& spec_has_model(models, f.base_type)
    &&& spec_find_attr(f.attrs, "relation"@) matches Some(ra)
    &&& spec_names_arg(ra, "fields"@).len() > 0
}

/// Whether a field's `@relation` names its `fields:`.
pub open spec fn spec_declares_fields(f: SpecRawField) -> bool {
    spec_find_attr(f.attrs, "relation"@) matches Some(ra) && spec_names_arg(ra, "fields"@).len() > 0
}

/// Whether list field `f` of model `m` forms an implicit many-to-many pair:
/// its `@relation`, if any, names no `fields:`, and the model it names lists
/// `m` back without a foreign key.
pub open spec fn spec_forms_m2m(models: Seq<SpecRawModel>, m: SpecRawModel, f: SpecRawField) -> bool {
    &&& spec_has_model(models, f.base_type)
    &&& !spec_declares_fields(f)
    &&& f.is_array
    &&& spec_first_model(models, f.base_type) matches Some(other)
    &&& exists|k: int|
        0 <= k < other.fields.len() && (#[trigger] other.fields[k]).base_type == m.name
            && other.fields[k].is_array
    &&& !exists|k: int|
        0 <= k < other.fields.len() && (#[trigger] other.fields[k]).base_type == m.name
            && (spec_find_attr(other.fields[k].attrs, "relation"@) matches Some(a) && spec_named(
            a.args,
            "fields"@,
        ) is Some)
}

proof fn lemma_step_grows(
    models: Seq<SpecRawModel>,
    m: SpecRawModel,
    f: SpecRawField,
    acc: SpecCollect,
)
    ensures
        ({
            let r = spec_collect_step(models, m, f, acc);
            &&& forall|x| acc.rels.contains(x) ==> #[trigger] r.rels.contains(x)
            &&& forall|x| acc.m2m.contains(x) ==> #[trigger] r.m2m.contains(x)
            &&& spec_declares_fk(models, f) ==> r.rels.contains(
                spec_rel_info_of(m, f, spec_find_attr(f.attrs, "relation"@)->0),
            )
            &&& spec_forms_m2m(models, m, f) ==> r.m2m.contains(
                spec_m2m_key(m.name, f.base_type, spec_field_rel_name(f)),
            )
        }),
{
    let r = spec_collect_step(models, m, f, acc);
    assert forall|x| acc.rels.contains(x) implies #[trigger] r.rels.contains(x) by {
        let i = choose|i: int| 0 <= i < acc.rels.len() && acc.rels[i] == x;
        assert(r.rels[i] == x);
    }
    assert forall|x| acc.m2m.contains(x) implies #[trigger] r.m2m.contains(x) by {
        let i = choose|i: int| 0 <= i < acc.m2m.len() && acc.m2m[i] == x;
        assert(r.m2m[i] == x);
    }
    if spec_declares_fk(models, f) {
        assert(r.rels[r.rels.len() - 1] == spec_rel_info_of(
            m,
            f,
            spec_find_attr(f.attrs, "relation"@)->0,
        ));
    }
    if spec_forms_m2m(models, m, f) {
        let key = spec_m2m_key(m.name, f.base_type, spec_field_rel_name(f));
        if !acc.m2m.contains(key) {
            assert(r.m2m[r.m2m.len() - 1] == key);
        }
    }
}

proof fn lemma_fields_grow(
    models: Seq<SpecRawModel>,
    m: SpecRawModel,
    fields: Seq<SpecRawField>,
    acc: SpecCollect,
)
    ensures
        ({
            let r = spec_collect_fields(models, m, fields, acc);
            &&& forall|x| acc.rels.contains(x) ==> #[trigger] r.rels.contains(x)
            &&& forall|x| acc.m2m.contains(x) ==> #[trigger] r.m2m.contains(x)
            &&& forall|i: int|
                0 <= i < fields.len() && spec_declares_fk(models, #[trigger] fields[i])
                    ==> r.rels.contains(
                    spec_rel_info_of(m, fields[i], spec_find_attr(fields[i].attrs, "relation"@)->0),
                )
            &&& forall|i: int|
                0 <= i < fields.len() && spec_forms_m2m(models, m, #[trigger] fields[i])
                    ==> r.m2m.contains(
                    spec_m2m_key(m.name, fields[i].base_type, spec_field_rel_name(fields[i])),
                )
        }),
    decreases fields.len(),
{
    if fields.len() > 0 {
        let prev = spec_collect_fields(models, m, fields.drop_last(), acc);
        lemma_fields_grow(models, m, fields.drop_last(), acc);
        lemma_step_grows(models, m, fields.last(), prev);
        let r = spec_collect_fields(models, m, fields, acc);
        assert forall|i: int|
            0 <= i < fields.len() && spec_declares_fk(models, #[trigger] fields[i]) implies r.rels.contains(
            spec_rel_info_of(m, fields[i], spec_find_attr(fields[i].attrs, "relation"@)->0),
        ) by {
            if i < fields.len() - 1 {
                assert(fields.drop_last()[i] == fields[i]);
            }
        }
        assert forall|i: int|
            0 <= i < fields.len() && spec_forms_m2m(models, m, #[trigger] fields[i]) implies r.m2m.contains(
            spec_m2m_key(m.name, fields[i].base_type, spec_field_rel_name(fields[i])),
        ) by {
            if i < fields.len() - 1 {
                assert(fields.drop_last()[i] == fields[i]);
            }
        }
    }
}

proof fn lemma_models_collect(models: Seq<SpecRawModel>, upto: Seq<SpecRawModel>)
    ensures
        ({
            let r = spec_collect_models(models, upto);
            &&& forall|j: int, i: int|
                0 <= j < upto.len() && 0 <= i < upto[j].fields.len() && spec_declares_fk(
                    models,
                    #[trigger] upto[j].fields[i],
                ) ==> r.rels.contains(
                    spec_rel_info_of(
                        upto[j],
                        upto[j].fields[i],
                        spec_find_attr(upto[j].fields[i].attrs, "relation"@)->0,
                    ),
                )
            &&& forall|j: int, i: int|
                0 <= j < upto.len() && 0 <= i < upto[j].fields.len() && spec_forms_m2m(
                    models,
                    upto[j],
                    #[trigger] upto[j].fields[i],
                ) ==> r.m2m.contains(
                    spec_m2m_key(
                        upto[j].name,
                        upto[j].fields[i].base_type,
                        spec_field_rel_name(upto[j].fields[i]),
                    ),
                )
        }),
    decreases upto.len(),
{
    if upto.len() > 0 {
        let prev = spec_collect_models(models, upto.drop_last());
        lemma_models_collect(models, upto.drop_last());
        let last = upto.last();
        lemma_fields_grow(models, last, last.fields, prev);
        let r = spec_collect_models(models, upto);
        assert forall|j: int, i: int|
            0 <= j < upto.len() && 0 <= i < upto[j].fields.len() && spec_declares_fk(
                models,
                #[trigger] upto[j].fields[i],
            ) implies r.rels.contains(
            spec_rel_info_of(
                upto[j],
                upto[j].fields[i],
                spec_find_attr(upto[j].fields[i].attrs, "relation"@)->0,
            ),
        ) by {
            if j < upto.len() - 1 {
                assert(upto.drop_last()[j] == upto[j]);
            }
        }
        assert forall|j: int, i: int|
            0 <= j < upto.len() && 0 <= i < upto[j].fields.len() && spec_forms_m2m(
                models,
                upto[j],
                #[trigger] upto[j].fields[i],
            ) implies r.m2m.contains(
            spec_m2m_key(
                upto[j].name,
                upto[j].fields[i].base_type,
                spec_field_rel_name(upto[j].fields[i]),
            ),
        ) by {
            if j < upto.len() - 1 {
                assert(upto.drop_last()[j] == upto[j]);
            }
        }
    }
}

proof fn lemma_fks_for_contains(rels: Seq<SpecRelInfo>, name: Seq<char>, k: int)
    requires
        0 <= k < rels.len(),
        rels[k].owner == name,
    ensures
        spec_fks_for(rels, name).contains(spec_fk_of(rels[k])),
    decreases rels.len(),
{
    let r = spec_fks_for(rels, name);
    if k == rels.len() - 1 {
        assert(r[r.len() - 1] == spec_fk_of(rels[k]));
    } else {
        assert(rels.drop_last()[k] == rels[k]);
        lemma_fks_for_contains(rels.drop_last(), name, k);
        let prev = spec_fks_for(rels.drop_last(), name);
        let i = choose|i: int| 0 <= i < prev.len() && prev[i] == spec_fk_of(rels[k]);
        assert(r[i] == spec_fk_of(rels[k]));
    }
}

proof fn lemma_rels_for_contains(
    rels: Seq<SpecRelInfo>,
    name: Seq<char>,
    models: Seq<SpecRawModel>,
    k: int,
)
    requires
        0 <= k < rels.len(),
        rels[k].owner == name || rels[k].target == name,
    ensures
        spec_rels_for(rels, name, models).contains(spec_relation_of(rels[k], models)),
    decreases rels.len(),
{
    let r = spec_rels_for(rels, name, models);
    let x = spec_relation_of(rels[k], models);
    if k == rels.len() - 1 {
        assert(r[r.len() - 1] == x);
    } else {
        assert(rels.drop_last()[k] == rels[k]);
        lemma_rels_for_contains(rels.drop_last(), name, models, k);
        let prev = spec_rels_for(rels.drop_last(), name, models);
        let i = choose|i: int| 0 <= i < prev.len() && prev[i] == x;
        assert(r[i] == x);
    }
}

proof fn lemma_m2m_for_contains(
    keys: Seq<(Seq<char>, Seq<char>, Option<Seq<char>>)>,
    name: Seq<char>,
    k: int,
    other: Seq<char>,
)
    requires
        0 <= k < keys.len(),
        (keys[k].0 == name && keys[k].1 == other) || (keys[k].1 == name && keys[k].0 == other),
    ensures
        spec_m2m_for(keys, name).contains(spec_m2m_relation(keys[k], name, other)),
    decreases keys.len(),
{
    let r = spec_m2m_for(keys, name);
    let x = spec_m2m_relation(keys[k], name, other);
    if k == keys.len() - 1 {
        assert(r[r.len() - 1] == x);
    } else {
        assert(keys.drop_last()[k] == keys[k]);
        lemma_m2m_for_contains(keys.drop_last(), name, k, other);
        let prev = spec_m2m_for(keys.drop_last(), name);
        let i = choose|i: int| 0 <= i < prev.len() && prev[i] == x;
        assert(r[i] == x);
    }
}

proof fn lemma_contains_in_concat<A>(a: Seq<A>, b: Seq<A>, x: A)
    requires
        a.contains(x) || b.contains(x),
    ensures
        (a + b).contains(x),
{
    if a.contains(x) {
        let i = choose|i: int| 0 <= i < a.len() && a[i] == x;
        assert((a + b)[i] == x);
    } else {
        let i = choose|i: int| 0 <= i < b.len() && b[i] == x;
        assert((a + b)[a.len() + i] == x);
    }
}

/// A relation field that names its `fields:` gives the table of its model a
/// foreign key to the model it names, built from its `@relation` arguments,
/// and the tables of both models the same relation between them, whose kind
/// is its cardinality read from the target model's back field.
pub proof fn law_foreign_key_on_owner(
    models: Seq<SpecRawModel>,
    enums: Seq<Seq<char>>,
    aliases: Seq<SpecRawTypeAlias>,
    j: int,
    i: int,
    t: int,
)
    requires
        0 <= j < models.len(),
        0 <= i < models[j].fields.len(),
        spec_declares_fk(models, models[j].fields[i]),
        0 <= t < models.len(),
        models[t].name == models[j].fields[i].base_type,
    ensures
        ({
            let f = models[j].fields[i];
            let ri = spec_rel_info_of(models[j], f, spec_find_attr(f.attrs, "relation"@)->0);
            let ts = spec_resolve_models(models, enums, aliases);
            &&& ts[j].foreign_keys.contains(spec_fk_of(ri))
            &&& spec_fk_of(ri).referenced_table == f.base_type
            &&& ts[j].relations.contains(spec_relation_of(ri, models))
            &&& ts[t].relations.contains(spec_relation_of(ri, models))
        }),
{
    let f = models[j].fields[i];
    let ri = spec_rel_info_of(models[j], f, spec_find_attr(f.attrs, "relation"@)->0);
    let coll = spec_collect_models(models, models);
    lemma_models_collect(models, models);
    assert(coll.rels.contains(ri));
    let k = choose|k: int| 0 <= k < coll.rels.len() && coll.rels[k] == ri;
    lemma_fks_for_contains(coll.rels, models[j].name, k);
    lemma_rels_for_contains(coll.rels, models[j].name, models, k);
    lemma_rels_for_contains(coll.rels, models[t].name, models, k);
    lemma_contains_in_concat(
        spec_rels_for(coll.rels, models[j].name, models),
        spec_m2m_for(coll.m2m, models[j].name),
        spec_relation_of(ri, models),
    );
    lemma_contains_in_concat(
        spec_rels_for(coll.rels, models[t].name, models),
        spec_m2m_for(coll.m2m, models[t].name),
        spec_relation_of(ri, models),
    );
}

/// Two list fields that name each other's models, with no foreign key on
/// either side, give both tables an implicit many-to-many relation to each
/// other, named by the field's `@relation` name if it has one, through the
/// junction table `_AToB`, where `A` is the model name that sorts first.
pub proof fn law_implicit_many_to_many(
    models: Seq<SpecRawModel>,
    enums: Seq<Seq<char>>,
    aliases: Seq<SpecRawTypeAlias>,
    j: int,
    i: int,
    t: int,
)
    requires
        0 <= j < models.len(),
        0 <= i < models[j].fields.len(),
        spec_forms_m2m(models, models[j], models[j].fields[i]),
        0 <= t < models.len(),
        models[t].name == models[j].fields[i].base_type,
    ensures
        ({
            let a = models[j].name;
            let b = models[t].name;
            let key = spec_m2m_key(a, b, spec_field_rel_name(models[j].fields[i]));
            let ts = spec_resolve_models(models, enums, aliases);
            &&& spec_m2m_relation(key, a, b).name == spec_field_rel_name(models[j].fields[i])
            &&& spec_str_le(key.0, key.1)
            &&& (key.0 == a && key.1 == b) || (key.0 == b && key.1 == a)
            &&& spec_m2m_relation(key, a, b).kind == (SpecRelationKind::ManyToMany {
                junction: SpecJunctionTable {
                    table: "_"@ + key.0 + "To"@ + key.1,
                    from_column: "A"@,
                    to_column: "B"@,
                },
                implicit: true,
            })
            &&& ts[j].relations.contains(spec_m2m_relation(key, a, b))
            &&& ts[t].relations.contains(spec_m2m_relation(key, b, a))
        }),
{
    let f = models[j].fields[i];
    let a = models[j].name;
    let b = models[t].name;
    let key = spec_m2m_key(a, b, spec_field_rel_name(f));
    lemma_str_le_total(a, b);
    let coll = spec_collect_models(models, models);
    lemma_models_collect(models, models);
    assert(coll.m2m.contains(key));
    let k = choose|k: int| 0 <= k < coll.m2m.len() && coll.m2m[k] == key;
    lemma_m2m_for_contains(coll.m2m, a, k, b);
    lemma_m2m_for_contains(coll.m2m, b, k, a);
    lemma_contains_in_concat(
        spec_rels_for(coll.rels, a, models),
        spec_m2m_for(coll.m2m, a),
        spec_m2m_relation(key, a, b),
    );
    lemma_contains_in_concat(
        spec_rels_for(coll.rels, b, models),
        spec_m2m_for(coll.m2m, b),
        spec_m2m_relation(key, b, a),
    );
}

// ── Attributes without an IR equivalent ───────────────────────────────────

proof fn lemma_block_features_contain(attrs: Seq<SpecRawAttr>, i: int)
    requires
        0 <= i < attrs.len(),
        !spec_known_block_attr(attrs[i].path),
    ensures
        spec_unknown_block_features(attrs, false).contains(spec_block_feature(attrs[i])),
    decreases attrs.len(),
{
    let r = spec_unknown_block_features(attrs, false);
    let x = spec_block_feature(attrs[i]);
    if i == attrs.len() - 1 {
        assert(r[r.len() - 1] == x);
    } else {
        assert(attrs.drop_last()[i] == attrs[i]);
        lemma_block_features_contain(attrs.drop_last(), i);
        let prev = spec_unknown_block_features(attrs.drop_last(), false);
        let k = choose|k: int| 0 <= k < prev.len() && prev[k] == x;
        assert(r[k] == x);
    }
}

proof fn lemma_field_unknowns_contain(field: Seq<char>, attrs: Seq<SpecRawAttr>, i: int)
    requires
        0 <= i < attrs.len(),
        !spec_known_field_attr(attrs[i].path),
        !"db."@.is_prefix_of(attrs[i].path),
    ensures
        spec_field_unknowns(field, attrs).contains(spec_field_feature(field, attrs[i])),
    decreases attrs.len(),
{
    let r = spec_field_unknowns(field, attrs);
    let x = spec_field_feature(field, attrs[i]);
    if i == attrs.len() - 1 {
        assert(r[r.len() - 1] == x);
    } else {
        assert(attrs.drop_last()[i] == attrs[i]);
        lemma_field_unknowns_contain(field, attrs.drop_last(), i);
        let prev = spec_field_unknowns(field, attrs.drop_last());
        let k = choose|k: int| 0 <= k < prev.len() && prev[k] == x;
        assert(r[k] == x);
    }
}

proof fn lemma_fold_features_contain(
    fields: Seq<SpecRawField>,
    models: Seq<SpecRawModel>,
    enums: Seq<Seq<char>>,
    aliases: Seq<SpecRawTypeAlias>,
    init: SpecFieldAcc,
    fi: int,
    x: SpecUnknownFeature,
)
    requires
        0 <= fi < fields.len(),
        !spec_has_model(models, fields[fi].base_type),
        spec_field_unknowns(fields[fi].name, fields[fi].attrs).contains(x),
    ensures
        spec_fields_fold(fields, models, enums, aliases, init).features.contains(x),
    decreases fields.len(),
{
    let prev = spec_fields_fold(fields.drop_last(), models, enums, aliases, init);
    let r = spec_fields_fold(fields, models, enums, aliases, init);
    if fi == fields.len() - 1 {
        lemma_contains_in_concat(
            prev.features,
            spec_field_unknowns(fields[fi].name, fields[fi].attrs),
            x,
        );
    } else {
        assert(fields.drop_last()[fi] == fields[fi]);
        lemma_fold_features_contain(fields.drop_last(), models, enums, aliases, init, fi, x);
        if !spec_has_model(models, fields.last().base_type) {
            lemma_contains_in_concat(
                prev.features,
                spec_field_unknowns(fields.last().name, fields.last().attrs),
                x,
            );
        }
    }
}

/// The block attributes that a model's table holds in fields of its own:
/// `@@map`, `@@schema`, `@@id`, `@@unique`, `@@index`, `@@fulltext`, `@@ignore`.
pub open spec fn spec_model_block_attr_name(p: Seq<char>) -> bool {
    p == "map"@ || p == "schema"@ || p == "id"@ || p == "unique"@ || p == "index"@ || p
        == "fulltext"@ || p == "ignore"@
}

/// The field attributes that a table holds in fields of its own: `@id`,
/// `@default`, `@unique`, `@map`, `@updatedAt`, `@ignore`, `@relation`.
pub open spec fn spec_model_field_attr_name(p: Seq<char>) -> bool {
    p == "id"@ || p == "default"@ || p == "unique"@ || p == "map"@ || p == "updatedAt"@ || p
        == "ignore"@ || p == "relation"@
}

/// A model's `@@ignore` is recorded first among its table's unknown features,
/// as `prisma.ignore` with the value `true`, and every other block attribute
/// `@@name(args)` that the table does not hold is recorded there as the
/// recoverable feature `prisma.name` with its arguments.
pub proof fn law_unknown_block_attributes_kept(
    models: Seq<SpecRawModel>,
    enums: Seq<Seq<char>>,
    aliases: Seq<SpecRawTypeAlias>,
    j: int,
)
    requires
        0 <= j < models.len(),
    ensures
        ({
            let ba = models[j].block_attrs;
            let feats = spec_resolve_models(models, enums, aliases)[j].metadata.unknown_features;
            &&& spec_find_attr(ba, "ignore"@) is Some ==> feats[0] == (SpecUnknownFeature {
                name: "prisma.ignore"@,
                value: SpecJson::Bool(true),
                recoverable: true,
            })
            &&& forall|i: int|
                0 <= i < ba.len() && !spec_model_block_attr_name(#[trigger] ba[i].path)
                    ==> feats.contains(
                    SpecUnknownFeature {
                        name: "prisma."@ + ba[i].path,
                        value: spec_args_to_json(ba[i].args),
                        recoverable: true,
                    },
                )
        }),
{
    let m = models[j];
    let ba = m.block_attrs;
    let base = spec_build_table(m, models, enums, aliases);
    let acc = spec_fields_fold(m.fields, models, enums, aliases, spec_field_init(ba));
    let ignore: Seq<SpecUnknownFeature> = if spec_find_attr(ba, "ignore"@) is Some {
        seq![spec_ignore_feature()]
    } else {
        Seq::empty()
    };
    let tail: Seq<SpecUnknownFeature> = if acc.ignored.len() > 0 {
        seq![spec_ignored_fields_feature(acc.ignored)]
    } else {
        Seq::empty()
    };
    let blocks = spec_unknown_block_features(ba, false);
    assert(spec_field_init(ba) == SpecFieldAcc {
        columns: Seq::empty(),
        primary_key: super::scalar_table::spec_block_pk(ba),
        uniques: Seq::empty(),
        behaviors: Seq::empty(),
        ignored: Seq::empty(),
        features: Seq::empty(),
    });
    assert(base.metadata.unknown_features == ignore + blocks + acc.features + tail);
    assert forall|i: int|
        0 <= i < ba.len() && !spec_model_block_attr_name(#[trigger] ba[i].path) implies base.metadata.unknown_features.contains(
        spec_block_feature(ba[i]),
    ) by {
        lemma_block_features_contain(ba, i);
        lemma_contains_in_concat(ignore, blocks, spec_block_feature(ba[i]));
        lemma_contains_in_concat(ignore + blocks, acc.features, spec_block_feature(ba[i]));
        lemma_contains_in_concat(ignore + blocks + acc.features, tail, spec_block_feature(ba[i]));
    }
}

/// Every attribute of a column's field that the table does not hold (nor a
/// `@db.*` type hint) is recorded among its table's unknown features as the
/// recoverable feature `prisma.field.<field>.<attribute>` with its arguments.
pub proof fn law_unknown_field_attributes_kept(
    models: Seq<SpecRawModel>,
    enums: Seq<Seq<char>>,
    aliases: Seq<SpecRawTypeAlias>,
    j: int,
    fi: int,
    ai: int,
)
    requires
        0 <= j < models.len(),
        0 <= fi < models[j].fields.len(),
        !spec_has_model(models, models[j].fields[fi].base_type),
        0 <= ai < models[j].fields[fi].attrs.len(),
        !spec_model_field_attr_name(models[j].fields[fi].attrs[ai].path),
        !"db."@.is_prefix_of(models[j].fields[fi].attrs[ai].path),
    ensures
        spec_resolve_models(models, enums, aliases)[j].metadata.unknown_features.contains(
            SpecUnknownFeature {
                name: "prisma.field."@ + models[j].fields[fi].name + "."@
                    + models[j].fields[fi].attrs[ai].path,
                value: spec_args_to_json(models[j].fields[fi].attrs[ai].args),
                recoverable: true,
            },
        ),
{
    let m = models[j];
    let f = m.fields[fi];
    let ba = m.block_attrs;
    let x = spec_field_feature(f.name, f.attrs[ai]);
    let base = spec_build_table(m, models, enums, aliases);
    let acc = spec_fields_fold(m.fields, models, enums, aliases, spec_field_init(ba));
    let ignore: Seq<SpecUnknownFeature> = if spec_find_attr(ba, "ignore"@) is Some {
        seq![spec_ignore_feature()]
    } else {
        Seq::empty()
    };
    let tail: Seq<SpecUnknownFeature> = if acc.ignored.len() > 0 {
        seq![spec_ignored_fields_feature(acc.ignored)]
    } else {
        Seq::empty()
    };
    let blocks = spec_unknown_block_features(ba, false);
    assert(spec_field_init(ba) == SpecFieldAcc {
        columns: Seq::empty(),
        primary_key: super::scalar_table::spec_block_pk(ba),
        uniques: Seq::empty(),
        behaviors: Seq::empty(),
        ignored: Seq::empty(),
        features: Seq::empty(),
    });
    assert(base.metadata.unknown_features == ignore + blocks + acc.features + tail);
    lemma_field_unknowns_contain(f.name, f.attrs, ai);
    lemma_fold_features_contain(m.fields, models, enums, aliases, spec_field_init(ba), fi, x);
    lemma_contains_in_concat(ignore + blocks, acc.features, x);
    lemma_contains_in_concat(ignore + blocks + acc.features, tail, x);
}

// ── Relations only point at declared models ───────────────────────────────

/// Every declaration and pair collected so far names declared models only.
pub open spec fn spec_collect_names_models(models: Seq<SpecRawModel>, c: SpecCollect) -> bool {
    &&& forall|i: int|
        0 <= i < c.rels.len() ==> spec_has_model(models, (#[trigger] c.rels[i]).owner)
            && spec_has_model(models, c.rels[i].target)
    &&& forall|i: int|
        0 <= i < c.m2m.len() ==> spec_has_model(models, (#[trigger] c.m2m[i]).0) && spec_has_model(
            models,
            c.m2m[i].1,
        )
}

proof fn lemma_collect_fields_names_models(
    models: Seq<SpecRawModel>,
    m: SpecRawModel,
    fields: Seq<SpecRawField>,
    acc: SpecCollect,
)
    requires
        spec_has_model(models, m.name),
        spec_collect_names_models(models, acc),
    ensures
        spec_collect_names_models(models, spec_collect_fields(models, m, fields, acc)),
    decreases fields.len(),
{
    if fields.len() > 0 {
        lemma_collect_fields_names_models(models, m, fields.drop_last(), acc);
        let prev = spec_collect_fields(models, m, fields.drop_last(), acc);
        let r = spec_collect_fields(models, m, fields, acc);
        let f = fields.last();
        assert(r == spec_collect_step(models, m, f, prev));
        if spec_has_model(models, f.base_type) {
            let key = spec_m2m_key(m.name, f.base_type, spec_field_rel_name(f));
            assert(spec_has_model(models, key.0) && spec_has_model(models, key.1));
        }
        assert forall|i: int| 0 <= i < r.rels.len() implies spec_has_model(
            models,
            (#[trigger] r.rels[i]).owner,
        ) && spec_has_model(models, r.rels[i].target) by {
            if i < prev.rels.len() {
                assert(r.rels[i] == prev.rels[i]);
            }
        }
        assert forall|i: int| 0 <= i < r.m2m.len() implies spec_has_model(
            models,
            (#[trigger] r.m2m[i]).0,
        ) && spec_has_model(models, r.m2m[i].1) by {
            if i < prev.m2m.len() {
                assert(r.m2m[i] == prev.m2m[i]);
            }
        }
    }
}

proof fn lemma_collect_models_names_models(models: Seq<SpecRawModel>, upto: Seq<SpecRawModel>)
    requires
        forall|j: int| 0 <= j < upto.len() ==> spec_has_model(models, #[trigger] upto[j].name),
    ensures
        spec_collect_names_models(models, spec_collect_models(models, upto)),
    decreases upto.len(),
{
    if upto.len() > 0 {
        assert forall|j: int| 0 <= j < upto.drop_last().len() implies spec_has_model(
            models,
            #[trigger] upto.drop_last()[j].name,
        ) by {
            assert(upto.drop_last()[j] == upto[j]);
        }
        lemma_collect_models_names_models(models, upto.drop_last());
        assert(spec_has_model(models, upto[upto.len() - 1].name));
        lemma_collect_fields_names_models(
            models,
            upto.last(),
            upto.last().fields,
            spec_collect_models(models, upto.drop_last()),
        );
    }
}

proof fn lemma_fks_for_models(models: Seq<SpecRawModel>, rels: Seq<SpecRelInfo>, name: Seq<char>)
    requires
        forall|i: int| 0 <= i < rels.len() ==> spec_has_model(models, (#[trigger] rels[i]).target),
    ensures
        forall|k: int|
            0 <= k < spec_fks_for(rels, name).len() ==> spec_has_model(
                models,
                (#[trigger] spec_fks_for(rels, name)[k]).referenced_table,
            ),
    decreases rels.len(),
{
    if rels.len() > 0 {
        assert forall|i: int| 0 <= i < rels.drop_last().len() implies spec_has_model(
            models,
            (#[trigger] rels.drop_last()[i]).target,
        ) by {
            assert(rels.drop_last()[i] == rels[i]);
        }
        lemma_fks_for_models(models, rels.drop_last(), name);
        let prev = spec_fks_for(rels.drop_last(), name);
        let r = spec_fks_for(rels, name);
        assert(spec_has_model(models, rels[rels.len() - 1].target));
        assert forall|k: int| 0 <= k < r.len() implies spec_has_model(
            models,
            (#[trigger] r[k]).referenced_table,
        ) by {
            if k < prev.len() {
                assert(r[k] == prev[k]);
            }
        }
    }
}

proof fn lemma_rels_for_models(
    models: Seq<SpecRawModel>,
    rels: Seq<SpecRelInfo>,
    name: Seq<char>,
    all: Seq<SpecRawModel>,
)
    requires
        forall|i: int|
            0 <= i < rels.len() ==> spec_has_model(models, (#[trigger] rels[i]).target)
                && spec_has_model(models, rels[i].owner),
    ensures
        forall|k: int|
            0 <= k < spec_rels_for(rels, name, all).len() ==> spec_has_model(
                models,
                (#[trigger] spec_rels_for(rels, name, all)[k]).from_table,
            ) && spec_has_model(models, spec_rels_for(rels, name, all)[k].to_table),
    decreases rels.len(),
{
    if rels.len() > 0 {
        assert forall|i: int| 0 <= i < rels.drop_last().len() implies spec_has_model(
            models,
            (#[trigger] rels.drop_last()[i]).target,
        ) && spec_has_model(models, rels.drop_last()[i].owner) by {
            assert(rels.drop_last()[i] == rels[i]);
        }
        lemma_rels_for_models(models, rels.drop_last(), name, all);
        let prev = spec_rels_for(rels.drop_last(), name, all);
        let r = spec_rels_for(rels, name, all);
        assert(spec_has_model(models, rels[rels.len() - 1].target));
        assert(spec_has_model(models, rels[rels.len() - 1].owner));
        assert forall|k: int| 0 <= k < r.len() implies spec_has_model(
            models,
            (#[trigger] r[k]).from_table,
        ) && spec_has_model(models, r[k].to_table) by {
            if k < prev.len() {
                assert(r[k] == prev[k]);
            }
        }
    }
}

proof fn lemma_m2m_for_models(
    models: Seq<SpecRawModel>,
    keys: Seq<(Seq<char>, Seq<char>, Option<Seq<char>>)>,
    name: Seq<char>,
)
    requires
        forall|i: int|
            0 <= i < keys.len() ==> spec_has_model(models, (#[trigger] keys[i]).0)
                && spec_has_model(models, keys[i].1),
    ensures
        forall|k: int|
            0 <= k < spec_m2m_for(keys, name).len() ==> spec_has_model(
                models,
                (#[trigger] spec_m2m_for(keys, name)[k]).from_table,
            ) && spec_has_model(models, spec_m2m_for(keys, name)[k].to_table),
    decreases keys.len(),
{
    if keys.len() > 0 {
        assert forall|i: int| 0 <= i < keys.drop_last().len() implies spec_has_model(
            models,
            (#[trigger] keys.drop_last()[i]).0,
        ) && spec_has_model(models, keys.drop_last()[i].1) by {
            assert(keys.drop_last()[i] == keys[i]);
        }
        lemma_m2m_for_models(models, keys.drop_last(), name);
        let prev = spec_m2m_for(keys.drop_last(), name);
        let r = spec_m2m_for(keys, name);
        assert(spec_has_model(models, keys[keys.len() - 1].0));
        assert(spec_has_model(models, keys[keys.len() - 1].1));
        assert forall|k: int| 0 <= k < r.len() implies spec_has_model(
            models,
            (#[trigger] r[k]).from_table,
        ) && spec_has_model(models, r[k].to_table) by {
            if k < prev.len() {
                assert(r[k] == prev[k]);
            }
        }
    }
}

/// Foreign keys and relations only ever point at models the schema declares:
/// every foreign key of every table references a model, and every relation
/// goes from a model to a model.
pub proof fn law_relations_point_at_models(
    models: Seq<SpecRawModel>,
    enums: Seq<Seq<char>>,
    aliases: Seq<SpecRawTypeAlias>,
    j: int,
)
    requires
        0 <= j < models.len(),
    ensures
        ({
            let t = spec_resolve_models(models, enums, aliases)[j];
            &&& forall|k: int|
                0 <= k < t.foreign_keys.len() ==> spec_has_model(
                    models,
                    (#[trigger] t.foreign_keys[k]).referenced_table,
                )
            &&& forall|k: int|
                0 <= k < t.relations.len() ==> spec_has_model(
                    models,
                    (#[trigger] t.relations[k]).from_table,
                ) && spec_has_model(models, t.relations[k].to_table)
        }),
{
    let coll = spec_collect_models(models, models);
    assert forall|i: int| 0 <= i < models.len() implies spec_has_model(
        models,
        #[trigger] models[i].name,
    ) by {}
    lemma_collect_models_names_models(models, models);
    let name = models[j].name;
    lemma_fks_for_models(models, coll.rels, name);
    lemma_rels_for_models(models, coll.rels, name, models);
    lemma_m2m_for_models(models, coll.m2m, name);
    let a = spec_rels_for(coll.rels, name, models);
    let b = spec_m2m_for(coll.m2m, name);
    let t = spec_resolve_models(models, enums, aliases)[j];
    assert(t.relations == a + b);
    assert forall|k: int| 0 <= k < t.relations.len() implies spec_has_model(
        models,
        (#[trigger] t.relations[k]).from_table,
    ) && spec_has_model(models, t.relations[k].to_table) by {
        if k < a.len() {
            assert(t.relations[k] == a[k]);
        } else {
            assert(t.relations[k] == b[k - a.len()]);
        }
    }
}

// ── Arguments of unknown attributes ───────────────────────────────────────

proof fn lemma_named_object_sorted(args: Seq<SpecRawArg>)
    ensures
        keys_sorted(spec_named_object(args)),
    decreases args.len(),
{
    if args.len() > 0 {
        lemma_named_object_sorted(args.drop_last());
        match args.last() {
            SpecRawArg::Named(k, v) => {
                law_members_insert(spec_named_object(args.drop_last()), k, spec_value_json(v));
            },
            SpecRawArg::Positional(_) => {},
        }
    }
}

/// The value recorded for an attribute with no IR equivalent keeps all of its
/// arguments: a lone positional argument is the value itself; otherwise the
/// value is an object with sorted, distinct keys that holds the positional
/// arguments under `"_"` (a single one as itself, several as an array in
/// order), and every other key as the named arguments give it.
pub proof fn law_unknown_attribute_arguments_kept(args: Seq<SpecRawArg>)
    ensures
        args.len() == 1 && args[0] is Positional ==> spec_args_to_json(args) == spec_value_json(
            args[0]->Positional_0,
        ),
        !(args.len() == 1 && args[0] is Positional) && args.len() > 0 ==> ({
            let o = spec_args_object(args);
            let pos = spec_positional_values(args);
            &&& spec_args_to_json(args) == SpecJson::Object(o)
            &&& keys_sorted(o)
            &&& pos.len() == 1 ==> member_value(o, "_"@) == Some(pos[0])
            &&& pos.len() > 1 ==> member_value(o, "_"@) == Some(SpecJson::Array(pos))
            &&& forall|k: Seq<char>|
                k != "_"@ ==> #[trigger] member_value(o, k) == member_value(
                    spec_named_object(args),
                    k,
                )
        }),
{
    lemma_named_object_sorted(args);
    let pos = spec_positional_values(args);
    if pos.len() > 0 {
        law_members_insert(spec_named_object(args), "_"@, spec_positional_json(pos));
    }
}

/// The referential action that the named argument `key` of a `@relation`
/// names, as an identifier; none when the argument is absent.
pub open spec fn spec_named_action(ra: SpecRawAttr, key: Seq<char>) -> Option<ReferentialAction> {
    match spec_named(ra.args, key) {
        Some(SpecRawValue::Ident(s)) => spec_parse_referential_action(s),
        _ => None,
    }
}

/// The foreign key that a relation field gives its table is built from the
/// field's `@relation` arguments alone: its name from `map:`, its columns from
/// `fields:`, the referenced table from the field's type, the referenced
/// columns from `references:`, its `on_delete` from `onDelete:` and its
/// `on_update` from `onUpdate:`, each independently of the others. The
/// relation both tables get carries the same two actions and columns.
pub proof fn law_foreign_key_arguments(
    models: Seq<SpecRawModel>,
    enums: Seq<Seq<char>>,
    aliases: Seq<SpecRawTypeAlias>,
    j: int,
    i: int,
)
    requires
        0 <= j < models.len(),
        0 <= i < models[j].fields.len(),
        spec_declares_fk(models, models[j].fields[i]),
    ensures
        ({
            let f = models[j].fields[i];
            let ra = spec_find_attr(f.attrs, "relation"@)->0;
            let ts = spec_resolve_models(models, enums, aliases);
            let on_delete = spec_named_action(ra, "onDelete"@);
            let on_update = spec_named_action(ra, "onUpdate"@);
            &&& ts[j].foreign_keys.contains(
                SpecForeignKey {
                    name: spec_named_str(ra.args, "map"@),
                    columns: spec_names_arg(ra, "fields"@),
                    referenced_table: f.base_type,
                    referenced_columns: spec_names_arg(ra, "references"@),
                    on_delete,
                    on_update,
                },
            )
            &&& exists|k: int|
                0 <= k < ts[j].relations.len() && (#[trigger] ts[j].relations[k]).cascade
                    == (CascadeOptions { on_delete, on_update }) && ts[j].relations[k].from_table
                    == f.base_type && ts[j].relations[k].to_table == models[j].name
                    && ts[j].relations[k].to_fields == spec_names_arg(ra, "fields"@)
                    && ts[j].relations[k].from_fields == spec_names_arg(ra, "references"@)
        }),
{
    let f = models[j].fields[i];
    let ra = spec_find_attr(f.attrs, "relation"@)->0;
    let t = choose|t: int| 0 <= t < models.len() && models[t].name == f.base_type;
    law_foreign_key_on_owner(models, enums, aliases, j, i, t);
    let ri = spec_rel_info_of(models[j], f, ra);
    assert(spec_action_arg(ra, "onDelete"@) == spec_named_action(ra, "onDelete"@));
    assert(spec_action_arg(ra, "onUpdate"@) == spec_named_action(ra, "onUpdate"@));
    let ts = spec_resolve_models(models, enums, aliases);
    let r = spec_relation_of(ri, models);
    let k = choose|k: int| 0 <= k < ts[j].relations.len() && ts[j].relations[k] == r;
    assert(ts[j].relations[k] == r);
}

// ── Primary keys ───────────────────────────────────────────────────────────

/// Whether a field gives a column marked `@id` (on the field or its alias).
pub open spec fn spec_id_field(
    f: SpecRawField,
    models: Seq<SpecRawModel>,
    aliases: Seq<SpecRawTypeAlias>,
) -> bool {
    !spec_has_model(models, f.base_type) && spec_field_or_alias_attr(f, aliases, "id"@) is Some
}

proof fn lemma_fold_pk_kept(
    fields: Seq<SpecRawField>,
    models: Seq<SpecRawModel>,
    enums: Seq<Seq<char>>,
    aliases: Seq<SpecRawTypeAlias>,
    init: SpecFieldAcc,
)
    requires
        init.primary_key is Some,
    ensures
        spec_fields_fold(fields, models, enums, aliases, init).primary_key == init.primary_key,
    decreases fields.len(),
{
    if fields.len() > 0 {
        lemma_fold_pk_kept(fields.drop_last(), models, enums, aliases, init);
    }
}

proof fn lemma_fold_pk_none(
    fields: Seq<SpecRawField>,
    models: Seq<SpecRawModel>,
    enums: Seq<Seq<char>>,
    aliases: Seq<SpecRawTypeAlias>,
    init: SpecFieldAcc,
)
    requires
        init.primary_key is None,
        forall|k: int| 0 <= k < fields.len() ==> !spec_id_field(#[trigger] fields[k], models, aliases),
    ensures
        spec_fields_fold(fields, models, enums, aliases, init).primary_key is None,
    decreases fields.len(),
{
    if fields.len() > 0 {
        assert forall|k: int| 0 <= k < fields.drop_last().len() implies !spec_id_field(
            #[trigger] fields.drop_last()[k],
            models,
            aliases,
        ) by {
            assert(fields.drop_last()[k] == fields[k]);
        }
        lemma_fold_pk_none(fields.drop_last(), models, enums, aliases, init);
        assert(!spec_id_field(fields[fields.len() - 1], models, aliases));
    }
}

proof fn lemma_fold_pk_first(
    fields: Seq<SpecRawField>,
    models: Seq<SpecRawModel>,
    enums: Seq<Seq<char>>,
    aliases: Seq<SpecRawTypeAlias>,
    init: SpecFieldAcc,
    i: int,
)
    requires
        init.primary_key is None,
        0 <= i < fields.len(),
        spec_id_field(fields[i], models, aliases),
        forall|k: int| 0 <= k < i ==> !spec_id_field(#[trigger] fields[k], models, aliases),
    ensures
        spec_fields_fold(fields, models, enums, aliases, init).primary_key == Some(
            SpecPrimaryKey {
                name: spec_named_str(
                    spec_field_or_alias_attr(fields[i], aliases, "id"@)->0.args,
                    "map"@,
                ),
                columns: seq![fields[i].name],
            },
        ),
    decreases fields.len(),
{
    let d = fields.drop_last();
    if i < fields.len() - 1 {
        assert(d[i] == fields[i]);
        assert forall|k: int| 0 <= k < i implies !spec_id_field(#[trigger] d[k], models, aliases) by {
            assert(d[k] == fields[k]);
        }
        lemma_fold_pk_first(d, models, enums, aliases, init, i);
    } else {
        assert forall|k: int| 0 <= k < d.len() implies !spec_id_field(#[trigger] d[k], models, aliases) by {
            assert(d[k] == fields[k]);
        }
        lemma_fold_pk_none(d, models, enums, aliases, init);
    }
}

/// The primary key of a model's table: with a block `@@id`, the first one
/// gives it, named by its `map:` string, over the columns its `fields:` (or
/// first positional) list names; without one, the first column field marked
/// `@id` (on the field or its type alias) gives it, named by that attribute's
/// `map:` string, over that one column; with neither there is none.
pub proof fn law_primary_key(
    models: Seq<SpecRawModel>,
    enums: Seq<Seq<char>>,
    aliases: Seq<SpecRawTypeAlias>,
    j: int,
)
    requires
        0 <= j < models.len(),
    ensures
        ({
            let m = models[j];
            let pk = spec_resolve_models(models, enums, aliases)[j].primary_key;
            &&& spec_find_attr(m.block_attrs, "id"@) matches Some(a) ==> pk == Some(
                SpecPrimaryKey {
                    name: spec_named_str(a.args, "map"@),
                    columns: match spec_named(a.args, "fields"@) {
                        Some(v) => spec_as_string_array(v),
                        None => match spec_first_positional(a.args) {
                            Some(v) => spec_as_string_array(v),
                            None => Seq::empty(),
                        },
                    },
                },
            )
            &&& spec_find_attr(m.block_attrs, "id"@) is None ==> (forall|i: int|
                0 <= i < m.fields.len() && spec_id_field(#[trigger] m.fields[i], models, aliases)
                    && (forall|k: int|
                    0 <= k < i ==> !spec_id_field(#[trigger] m.fields[k], models, aliases)) ==> pk
                    == Some(
                    SpecPrimaryKey {
                        name: spec_named_str(
                            spec_field_or_alias_attr(m.fields[i], aliases, "id"@)->0.args,
                            "map"@,
                        ),
                        columns: seq![m.fields[i].name],
                    },
                ))
            &&& spec_find_attr(m.block_attrs, "id"@) is None && (forall|k: int|
                0 <= k < m.fields.len() ==> !spec_id_field(#[trigger] m.fields[k], models, aliases))
                ==> pk is None
        }),
{
    let m = models[j];
    let init = spec_field_init(m.block_attrs);
    match spec_find_attr(m.block_attrs, "id"@) {
        Some(a) => {
            lemma_fold_pk_kept(m.fields, models, enums, aliases, init);
        },
        None => {
            assert forall|i: int|
                0 <= i < m.fields.len() && spec_id_field(#[trigger] m.fields[i], models, aliases)
                    && (forall|k: int|
                    0 <= k < i ==> !spec_id_field(#[trigger] m.fields[k], models, aliases)) implies spec_resolve_models(
                models,
                enums,
                aliases,
            )[j].primary_key == Some(
                SpecPrimaryKey {
                    name: spec_named_str(
                        spec_field_or_alias_attr(m.fields[i], aliases, "id"@)->0.args,
                        "map"@,
                    ),
                    columns: seq![m.fields[i].name],
                },
            ) by {
                lemma_fold_pk_first(m.fields, models, enums, aliases, init, i);
            }
            if forall|k: int| 0 <= k < m.fields.len() ==> !spec_id_field(#[trigger] m.fields[k], models, aliases) {
                lemma_fold_pk_none(m.fields, models, enums, aliases, init);
            }
        },
    }
}

// ── Columns and table naming ──────────────────────────────────────────────

/// Each column takes, from its field: the field's name; its database name
/// from the field's `@map("..")`; nullability from `?`; the array flag from
/// `[]`; its type from `Unsupported("..")` as written, else the alias's base
/// type or the field's own type (an enum as that enum, a Prisma scalar as
/// its IR type, any other name carried as unsupported); its default from the
/// first positional argument of `@default(..)`; and its hint from the first
/// `@db.*` attribute. Where the field has no `@default` or no `@db.*`, its
/// type alias's one is used. A table's database name and schema are the
/// strings of its `@@map` and `@@schema`.
pub proof fn law_columns_and_naming(
    models: Seq<SpecRawModel>,
    enums: Seq<Seq<char>>,
    aliases: Seq<SpecRawTypeAlias>,
    j: int,
)
    requires
        0 <= j < models.len(),
    ensures
        ({
            let m = models[j];
            let t = spec_resolve_models(models, enums, aliases)[j];
            let sf = spec_scalar_fields(m.fields, models);
            &&& t.db_name == match spec_find_attr(m.block_attrs, "map"@) {
                Some(a) => spec_first_positional_str(a.args),
                None => None,
            }
            &&& t.db_schema == match spec_find_attr(m.block_attrs, "schema"@) {
                Some(a) => spec_first_positional_str(a.args),
                None => None,
            }
            &&& t.columns.len() == sf.len()
            &&& forall|i: int|
                #![trigger t.columns[i]]
                0 <= i < sf.len() ==> {
                    let c = t.columns[i];
                    let f = sf[i];
                    let base = match spec_find_alias(aliases, f.base_type) {
                        Some(al) => al.base_type,
                        None => f.base_type,
                    };
                    &&& c.name == f.name
                    &&& c.db_name == match spec_find_attr(f.attrs, "map"@) {
                        Some(a) => spec_first_positional_str(a.args),
                        None => None,
                    }
                    &&& c.nullable == f.is_optional
                    &&& c.col_type.array == f.is_array
                    &&& f.unsupported_type matches Some(x) ==> c.col_type.scalar
                        == (SpecScalarType::Unsupported { raw_type: x })
                    &&& f.unsupported_type is None && enums.contains(base) ==> c.col_type.scalar
                        == (SpecScalarType::Enum { name: base })
                    &&& f.unsupported_type is None && !enums.contains(base) && spec_map_scalar_type(
                        base,
                    ) is Some ==> c.col_type.scalar == spec_map_scalar_type(base)->0
                    &&& spec_find_attr(f.attrs, "default"@) matches Some(a) ==> c.default
                        == match spec_first_positional(a.args) {
                        Some(v) => spec_map_default_value(v),
                        None => None,
                    }
                    &&& f.unsupported_type is None && !enums.contains(base) && spec_map_scalar_type(
                        base,
                    ) is None ==> c.col_type.scalar == (SpecScalarType::Unsupported {
                        raw_type: base,
                    })
                    &&& spec_find_attr(f.attrs, "default"@) is None ==> c.default == match spec_find_alias(
                        aliases,
                        f.base_type,
                    ) {
                        Some(al) => match spec_find_attr(al.attrs, "default"@) {
                            Some(a) => match spec_first_positional(a.args) {
                                Some(v) => spec_map_default_value(v),
                                None => None,
                            },
                            None => None,
                        },
                        None => None,
                    }
                    &&& spec_find_prefixed(f.attrs, "db."@) matches Some(a) ==> c.col_type.db_hint
                        == spec_map_db_hint(a.path, a.args)
                    &&& spec_find_prefixed(f.attrs, "db."@) is None ==> c.col_type.db_hint
                        == match spec_find_alias(aliases, f.base_type) {
                        Some(al) => match spec_find_prefixed(al.attrs, "db."@) {
                            Some(a) => spec_map_db_hint(a.path, a.args),
                            None => None,
                        },
                        None => None,
                    }
                }
        }),
{
    law_one_column_per_scalar_field(models[j], models, enums, aliases);
}

// ── Constraints, indexes and behaviors ────────────────────────────────────

proof fn lemma_block_uniques_contain(attrs: Seq<SpecRawAttr>, i: int)
    requires
        0 <= i < attrs.len(),
        attrs[i].path == "unique"@,
    ensures
        spec_block_uniques(attrs).contains(spec_unique_of(attrs[i])),
    decreases attrs.len(),
{
    let r = spec_block_uniques(attrs);
    if i == attrs.len() - 1 {
        assert(r[r.len() - 1] == spec_unique_of(attrs[i]));
    } else {
        assert(attrs.drop_last()[i] == attrs[i]);
        lemma_block_uniques_contain(attrs.drop_last(), i);
        let prev = spec_block_uniques(attrs.drop_last());
        let k = choose|k: int| 0 <= k < prev.len() && prev[k] == spec_unique_of(attrs[i]);
        assert(r[k] == prev[k]);
    }
}

proof fn lemma_block_indexes_contain(attrs: Seq<SpecRawAttr>, i: int)
    requires
        0 <= i < attrs.len(),
        attrs[i].path == "index"@,
        spec_cols_value(attrs[i]) is Some,
    ensures
        spec_block_indexes(attrs).contains(
            spec_index_of(attrs[i], spec_cols_value(attrs[i])->0),
        ),
    decreases attrs.len(),
{
    let r = spec_block_indexes(attrs);
    let x = spec_index_of(attrs[i], spec_cols_value(attrs[i])->0);
    if i == attrs.len() - 1 {
        assert(r[r.len() - 1] == x);
    } else {
        assert(attrs.drop_last()[i] == attrs[i]);
        lemma_block_indexes_contain(attrs.drop_last(), i);
        let prev = spec_block_indexes(attrs.drop_last());
        let k = choose|k: int| 0 <= k < prev.len() && prev[k] == x;
        assert(r[k] == prev[k]);
    }
}

proof fn lemma_block_fulltexts_contain(attrs: Seq<SpecRawAttr>, i: int)
    requires
        0 <= i < attrs.len(),
        attrs[i].path == "fulltext"@,
    ensures
        spec_block_fulltexts(attrs).contains(spec_fulltext_of(attrs[i])),
    decreases attrs.len(),
{
    let r = spec_block_fulltexts(attrs);
    let x = spec_fulltext_of(attrs[i]);
    if i == attrs.len() - 1 {
        assert(r[r.len() - 1] == x);
    } else {
        assert(attrs.drop_last()[i] == attrs[i]);
        lemma_block_fulltexts_contain(attrs.drop_last(), i);
        let prev = spec_block_fulltexts(attrs.drop_last());
        let k = choose|k: int| 0 <= k < prev.len() && prev[k] == x;
        assert(r[k] == prev[k]);
    }
}

proof fn lemma_fold_field_marks(
    fields: Seq<SpecRawField>,
    models: Seq<SpecRawModel>,
    enums: Seq<Seq<char>>,
    aliases: Seq<SpecRawTypeAlias>,
    init: SpecFieldAcc,
    i: int,
)
    requires
        0 <= i < fields.len(),
        !spec_has_model(models, fields[i].base_type),
    ensures
        ({
            let acc = spec_fields_fold(fields, models, enums, aliases, init);
            let f = fields[i];
            &&& spec_field_or_alias_attr(f, aliases, "unique"@) is Some ==> acc.uniques.contains(
                SpecUniqueConstraint { name: None, columns: seq![f.name] },
            )
            &&& spec_field_or_alias_attr(f, aliases, "updatedAt"@) is Some
                ==> acc.behaviors.contains(SpecBehavior::UpdatedAt { column: f.name })
        }),
    decreases fields.len(),
{
    let prev = spec_fields_fold(fields.drop_last(), models, enums, aliases, init);
    let acc = spec_fields_fold(fields, models, enums, aliases, init);
    let f = fields[i];
    let u = SpecUniqueConstraint { name: None, columns: seq![f.name] };
    let b = SpecBehavior::UpdatedAt { column: f.name };
    if i == fields.len() - 1 {
        if spec_field_or_alias_attr(f, aliases, "unique"@) is Some {
            assert(acc.uniques[acc.uniques.len() - 1] == u);
        }
        if spec_field_or_alias_attr(f, aliases, "updatedAt"@) is Some {
            assert(acc.behaviors[acc.behaviors.len() - 1] == b);
        }
    } else {
        assert(fields.drop_last()[i] == f);
        lemma_fold_field_marks(fields.drop_last(), models, enums, aliases, init, i);
        if spec_field_or_alias_attr(f, aliases, "unique"@) is Some {
            let k = choose|k: int| 0 <= k < prev.uniques.len() && prev.uniques[k] == u;
            assert(acc.uniques[k] == prev.uniques[k]);
        }
        if spec_field_or_alias_attr(f, aliases, "updatedAt"@) is Some {
            let k = choose|k: int| 0 <= k < prev.behaviors.len() && prev.behaviors[k] == b;
            assert(acc.behaviors[k] == prev.behaviors[k]);
        }
    }
}

/// The constraints a model's table gets from its attributes: each `@@unique`
/// gives a unique constraint named by its `map:` string over its `fields:`
/// (or first positional) columns; each `@@index` that names its columns gives
/// a non-unique index named by its `name:` string, over those columns, with
/// the access method its `type:` names; each `@@fulltext` gives a `fulltext`
/// index; a column field marked `@unique` gives an unnamed unique constraint
/// on that column, and one marked `@updatedAt` an `UpdatedAt` behavior.
pub proof fn law_constraints(
    models: Seq<SpecRawModel>,
    enums: Seq<Seq<char>>,
    aliases: Seq<SpecRawTypeAlias>,
    j: int,
)
    requires
        0 <= j < models.len(),
    ensures
        ({
            let m = models[j];
            let ba = m.block_attrs;
            let t = spec_resolve_models(models, enums, aliases)[j];
            let cols_of = |a: SpecRawAttr|
                match spec_named(a.args, "fields"@) {
                    Some(v) => Some(v),
                    None => spec_first_positional(a.args),
                };
            &&& forall|i: int|
                0 <= i < ba.len() && (#[trigger] ba[i]).path == "unique"@
                    ==> t.unique_constraints.contains(
                    SpecUniqueConstraint {
                        name: spec_named_str(ba[i].args, "map"@),
                        columns: match cols_of(ba[i]) {
                            Some(v) => spec_as_string_array(v),
                            None => Seq::empty(),
                        },
                    },
                )
            &&& forall|i: int|
                0 <= i < ba.len() && (#[trigger] ba[i]).path == "index"@ && cols_of(ba[i]) is Some
                    ==> t.indexes.contains(
                    SpecIndex {
                        name: spec_named_str(ba[i].args, "name"@),
                        columns: spec_index_columns(cols_of(ba[i])->0),
                        unique: false,
                        partial: None,
                        index_type: match spec_named(ba[i].args, "type"@) {
                            Some(SpecRawValue::Ident(s)) => Some(spec_map_index_type(s)),
                            _ => None,
                        },
                        included: Seq::empty(),
                    },
                )
            &&& forall|i: int|
                0 <= i < ba.len() && (#[trigger] ba[i]).path == "fulltext"@ ==> t.indexes.contains(
                    SpecIndex {
                        name: spec_named_str(ba[i].args, "name"@),
                        columns: match cols_of(ba[i]) {
                            Some(v) => spec_index_columns(v),
                            None => Seq::empty(),
                        },
                        unique: false,
                        partial: None,
                        index_type: Some(SpecIndexType::Custom { name: "fulltext"@ }),
                        included: Seq::empty(),
                    },
                )
            &&& forall|i: int|
                0 <= i < m.fields.len() && !spec_has_model(models, (#[trigger] m.fields[i]).base_type)
                    ==> (spec_field_or_alias_attr(m.fields[i], aliases, "unique"@) is Some
                    ==> t.unique_constraints.contains(
                    SpecUniqueConstraint { name: None, columns: seq![m.fields[i].name] },
                )) && (spec_field_or_alias_attr(m.fields[i], aliases, "updatedAt"@) is Some
                    ==> t.behaviors.contains(SpecBehavior::UpdatedAt { column: m.fields[i].name }))
        }),
{
    let m = models[j];
    let ba = m.block_attrs;
    let t = spec_resolve_models(models, enums, aliases)[j];
    let init = spec_field_init(ba);
    let acc = spec_fields_fold(m.fields, models, enums, aliases, init);
    let bu = spec_block_uniques(ba);
    let bi = spec_block_indexes(ba);
    let bf = spec_block_fulltexts(ba);
    assert(t.unique_constraints == bu + acc.uniques);
    assert(t.indexes == bi + bf);
    assert forall|i: int| 0 <= i < ba.len() && (#[trigger] ba[i]).path == "unique"@ implies t.unique_constraints.contains(
        spec_unique_of(ba[i]),
    ) by {
        lemma_block_uniques_contain(ba, i);
        lemma_contains_in_concat(bu, acc.uniques, spec_unique_of(ba[i]));
    }
    assert forall|i: int|
        0 <= i < ba.len() && (#[trigger] ba[i]).path == "index"@ && spec_cols_value(ba[i]) is Some implies t.indexes.contains(
        spec_index_of(ba[i], spec_cols_value(ba[i])->0),
    ) by {
        lemma_block_indexes_contain(ba, i);
        lemma_contains_in_concat(bi, bf, spec_index_of(ba[i], spec_cols_value(ba[i])->0));
    }
    assert forall|i: int| 0 <= i < ba.len() && (#[trigger] ba[i]).path == "fulltext"@ implies t.indexes.contains(
        spec_fulltext_of(ba[i]),
    ) by {
        lemma_block_fulltexts_contain(ba, i);
        lemma_contains_in_concat(bi, bf, spec_fulltext_of(ba[i]));
    }
    assert forall|i: int|
        0 <= i < m.fields.len() && !spec_has_model(models, (#[trigger] m.fields[i]).base_type) implies (spec_field_or_alias_attr(
        m.fields[i],
        aliases,
        "unique"@,
    ) is Some ==> t.unique_constraints.contains(
        SpecUniqueConstraint { name: None, columns: seq![m.fields[i].name] },
    )) && (spec_field_or_alias_attr(m.fields[i], aliases, "updatedAt"@) is Some
        ==> t.behaviors.contains(SpecBehavior::UpdatedAt { column: m.fields[i].name })) by {
        lemma_fold_field_marks(m.fields, models, enums, aliases, init, i);
        if spec_field_or_alias_attr(m.fields[i], aliases, "unique"@) is Some {
            lemma_contains_in_concat(
                bu,
                acc.uniques,
                SpecUniqueConstraint { name: None, columns: seq![m.fields[i].name] },
            );
        }
    }
}


// ── Ignored fields ─────────────────────────────────────────────────────────

/// The names of the column fields marked `@ignore`, in order.
pub open spec fn spec_ignored_column_names(fields: Seq<SpecRawField>, models: Seq<SpecRawModel>) -> Seq<
    Seq<char>,
>
    decreases fields.len(),
{
    if fields.len() == 0 {
        Seq::empty()
    } else {
        let rest = spec_ignored_column_names(fields.drop_last(), models);
        let f = fields.last();
        if !spec_has_model(models, f.base_type) && spec_find_attr(f.attrs, "ignore"@) is Some {
            rest.push(f.name)
        } else {
            rest
        }
    }
}

proof fn lemma_fold_ignored(
    fields: Seq<SpecRawField>,
    models: Seq<SpecRawModel>,
    enums: Seq<Seq<char>>,
    aliases: Seq<SpecRawTypeAlias>,
    init: SpecFieldAcc,
)
    ensures
        spec_fields_fold(fields, models, enums, aliases, init).ignored == init.ignored
            + spec_ignored_column_names(fields, models),
    decreases fields.len(),
{
    if fields.len() == 0 {
        assert(init.ignored + Seq::<Seq<char>>::empty() =~= init.ignored);
    } else {
        lemma_fold_ignored(fields.drop_last(), models, enums, aliases, init);
        let prev = spec_ignored_column_names(fields.drop_last(), models);
        assert((init.ignored + prev).push(fields.last().name) =~= init.ignored + prev.push(
            fields.last().name,
        ));
    }
}

/// A model's table is marked as coming from Prisma, with no target hints.
/// When some of its column fields are marked `@ignore`, the last of its
/// unknown features is the recoverable `prisma.ignoredFields`, whose value
/// lists their names in field order.
pub proof fn law_ignored_fields(
    models: Seq<SpecRawModel>,
    enums: Seq<Seq<char>>,
    aliases: Seq<SpecRawTypeAlias>,
    j: int,
)
    requires
        0 <= j < models.len(),
    ensures
        ({
            let t = spec_resolve_models(models, enums, aliases)[j];
            let feats = t.metadata.unknown_features;
            let names = spec_ignored_column_names(models[j].fields, models);
            &&& t.metadata.source_orm == Some(SpecOrmKind::Prisma)
            &&& t.metadata.target_hints.len() == 0
            &&& names.len() > 0 ==> feats.len() > 0 && feats.last() == (SpecUnknownFeature {
                name: "prisma.ignoredFields"@,
                value: SpecJson::Array(names.map_values(|n: Seq<char>| SpecJson::String(n))),
                recoverable: true,
            })
        }),
{
    let m = models[j];
    let ba = m.block_attrs;
    let init = spec_field_init(ba);
    assert(init == SpecFieldAcc {
        columns: Seq::empty(),
        primary_key: super::scalar_table::spec_block_pk(ba),
        uniques: Seq::empty(),
        behaviors: Seq::empty(),
        ignored: Seq::empty(),
        features: Seq::empty(),
    });
    lemma_fold_ignored(m.fields, models, enums, aliases, init);
    let names = spec_ignored_column_names(m.fields, models);
    assert(Seq::<Seq<char>>::empty() + names =~= names);
}


// ── The unknown features of a table, exactly ──────────────────────────────

/// The recoverable feature that records an attribute under `name`, with the
/// attribute's arguments as its value.
pub open spec fn spec_recorded(name: Seq<char>, a: SpecRawAttr) -> SpecUnknownFeature {
    SpecUnknownFeature { name, value: spec_args_to_json(a.args), recoverable: true }
}

/// `prisma.<name>` for each block attribute that a table does not hold, in order.
pub open spec fn spec_unmodelled_block_attrs(ba: Seq<SpecRawAttr>) -> Seq<SpecUnknownFeature>
    decreases ba.len(),
{
    if ba.len() == 0 {
        Seq::empty()
    } else {
        let rest = spec_unmodelled_block_attrs(ba.drop_last());
        let a = ba.last();
        if spec_model_block_attr_name(a.path) {
            rest
        } else {
            rest.push(spec_recorded("prisma."@ + a.path, a))
        }
    }
}

/// `prisma.field.<field>.<name>` for each attribute of field `field` that a
/// table does not hold and that is no `@db.*` hint, in order.
pub open spec fn spec_unmodelled_field_attrs(field: Seq<char>, attrs: Seq<SpecRawAttr>) -> Seq<
    SpecUnknownFeature,
>
    decreases attrs.len(),
{
    if attrs.len() == 0 {
        Seq::empty()
    } else {
        let rest = spec_unmodelled_field_attrs(field, attrs.drop_last());
        let a = attrs.last();
        if spec_model_field_attr_name(a.path) || "db."@.is_prefix_of(a.path) {
            rest
        } else {
            rest.push(spec_recorded("prisma.field."@ + field + "."@ + a.path, a))
        }
    }
}

/// The features of the unmodelled attributes of the column fields, field by field.
pub open spec fn spec_unmodelled_fields(fields: Seq<SpecRawField>, models: Seq<SpecRawModel>) -> Seq<
    SpecUnknownFeature,
>
    decreases fields.len(),
{
    if fields.len() == 0 {
        Seq::empty()
    } else {
        let rest = spec_unmodelled_fields(fields.drop_last(), models);
        let f = fields.last();
        if spec_has_model(models, f.base_type) {
            rest
        } else {
            rest + spec_unmodelled_field_attrs(f.name, f.attrs)
        }
    }
}

proof fn lemma_unmodelled_block_attrs(ba: Seq<SpecRawAttr>)
    ensures
        spec_unknown_block_features(ba, false) == spec_unmodelled_block_attrs(ba),
    decreases ba.len(),
{
    if ba.len() > 0 {
        lemma_unmodelled_block_attrs(ba.drop_last());
    }
}

proof fn lemma_unmodelled_field_attrs(field: Seq<char>, attrs: Seq<SpecRawAttr>)
    ensures
        spec_field_unknowns(field, attrs) == spec_unmodelled_field_attrs(field, attrs),
    decreases attrs.len(),
{
    if attrs.len() > 0 {
        lemma_unmodelled_field_attrs(field, attrs.drop_last());
    }
}

proof fn lemma_fold_unmodelled(
    fields: Seq<SpecRawField>,
    models: Seq<SpecRawModel>,
    enums: Seq<Seq<char>>,
    aliases: Seq<SpecRawTypeAlias>,
    init: SpecFieldAcc,
)
    ensures
        spec_fields_fold(fields, models, enums, aliases, init).features == init.features
            + spec_unmodelled_fields(fields, models),
    decreases fields.len(),
{
    if fields.len() == 0 {
        assert(init.features + Seq::<SpecUnknownFeature>::empty() =~= init.features);
    } else {
        lemma_fold_unmodelled(fields.drop_last(), models, enums, aliases, init);
        let f = fields.last();
        lemma_unmodelled_field_attrs(f.name, f.attrs);
        let prev = spec_unmodelled_fields(fields.drop_last(), models);
        assert(init.features + prev + spec_unmodelled_field_attrs(f.name, f.attrs) =~= init.features
            + (prev + spec_unmodelled_field_attrs(f.name, f.attrs)));
    }
}

/// The unknown features of a model's table are exactly, in this order:
/// `prisma.ignore` (value `true`) when the model is marked `@@ignore`; one
/// `prisma.<name>` for each block attribute that the table does not hold;
/// one `prisma.field.<field>.<name>` for each attribute of a column field that
/// the table does not hold and that is no `@db.*` hint, field by field; and
/// `prisma.ignoredFields`, listing the column fields marked `@ignore`, when
/// there are any. Each is recoverable and carries the attribute's arguments.
pub proof fn law_unknown_features_exact(
    models: Seq<SpecRawModel>,
    enums: Seq<Seq<char>>,
    aliases: Seq<SpecRawTypeAlias>,
    j: int,
)
    requires
        0 <= j < models.len(),
    ensures
        ({
            let m = models[j];
            let ba = m.block_attrs;
            let names = spec_ignored_column_names(m.fields, models);
            let head: Seq<SpecUnknownFeature> = if spec_find_attr(ba, "ignore"@) is Some {
                seq![
                    SpecUnknownFeature {
                        name: "prisma.ignore"@,
                        value: SpecJson::Bool(true),
                        recoverable: true,
                    },
                ]
            } else {
                Seq::empty()
            };
            let tail: Seq<SpecUnknownFeature> = if names.len() > 0 {
                seq![
                    SpecUnknownFeature {
                        name: "prisma.ignoredFields"@,
                        value: SpecJson::Array(names.map_values(|n: Seq<char>| SpecJson::String(n))),
                        recoverable: true,
                    },
                ]
            } else {
                Seq::empty()
            };
            spec_resolve_models(models, enums, aliases)[j].metadata.unknown_features == head
                + spec_unmodelled_block_attrs(ba) + spec_unmodelled_fields(m.fields, models) + tail
        }),
{
    let m = models[j];
    let ba = m.block_attrs;
    let init = spec_field_init(ba);
    assert(init == SpecFieldAcc {
        columns: Seq::empty(),
        primary_key: super::scalar_table::spec_block_pk(ba),
        uniques: Seq::empty(),
        behaviors: Seq::empty(),
        ignored: Seq::empty(),
        features: Seq::empty(),
    });
    lemma_fold_ignored(m.fields, models, enums, aliases, init);
    lemma_fold_unmodelled(m.fields, models, enums, aliases, init);
    lemma_unmodelled_block_attrs(ba);
    let names = spec_ignored_column_names(m.fields, models);
    assert(Seq::<Seq<char>>::empty() + names =~= names);
    let fs = spec_unmodelled_fields(m.fields, models);
    assert(Seq::<SpecUnknownFeature>::empty() + fs =~= fs);
}

} // verus!
