//! Properties of the relations that the Prisma importer gives each table.
use vstd::prelude::*;
use super::ast::{
    spec_find_attr, spec_first_positional, spec_named, SpecRawField, SpecRawModel, SpecRawTypeAlias,
    SpecRawValue,
};
use super::laws::{law_foreign_key_on_owner, spec_declares_fk, spec_forms_m2m, spec_rel_info_of};
use super::relations::{
    spec_back_field, spec_collect_fields, spec_collect_models, spec_collect_step,
    spec_field_rel_name, spec_m2m_for, spec_m2m_key, spec_m2m_relation, spec_names_arg,
    spec_names_match, spec_relation_name, spec_relation_of, spec_rels_for, SpecCollect,
    SpecRelInfo,
};
use super::resolver::spec_resolve_models;
use super::scalar_table::{spec_first_model, spec_has_model};
use crate::pivot::relation::{SpecJunctionTable, SpecRelation, SpecRelationKind};
use crate::text::{lemma_str_le_antisym, lemma_str_le_total, spec_str_le};

verus! {

/// Whether model `m` refers to the model `owner` only through list fields (or not at all).
pub open spec fn spec_refers_by_lists_only(m: SpecRawModel, owner: Seq<char>) -> bool {
    forall|k: int| 0 <= k < m.fields.len() && (#[trigger] m.fields[k]).base_type == owner
        ==> m.fields[k].is_array
}

/// Whether model `m` refers to the model `owner` only through single fields,
/// one of which carries the relation name `rn` (both absent counts as equal).
pub open spec fn spec_refers_by_single_named(
    m: SpecRawModel,
    owner: Seq<char>,
    rn: Option<Seq<char>>,
) -> bool {
    &&& forall|k: int| 0 <= k < m.fields.len() && (#[trigger] m.fields[k]).base_type == owner
        ==> !m.fields[k].is_array
    &&& exists|k: int|
        0 <= k < m.fields.len() && (#[trigger] m.fields[k]).base_type == owner && rn
            == spec_field_rel_name(m.fields[k])
}

/// The relation name a `@relation` attribute's arguments give: the string
/// passed as `name:`, else the first positional argument when it is a string.
pub open spec fn spec_declared_relation_name(ra_args: Seq<super::ast::SpecRawArg>) -> Option<
    Seq<char>,
> {
    match spec_named(ra_args, "name"@) {
        Some(SpecRawValue::Str(n)) => Some(n),
        _ => match spec_first_positional(ra_args) {
            Some(SpecRawValue::Str(n)) => Some(n),
            _ => None,
        },
    }
}

proof fn lemma_back_field_found(fields: Seq<SpecRawField>, name: Seq<char>, rn: Option<Seq<char>>)
    ensures
        spec_back_field(fields, name, rn) matches Some(g) ==> exists|k: int|
            0 <= k < fields.len() && fields[k] == g && g.base_type == name,
        (exists|k: int|
            0 <= k < fields.len() && (#[trigger] fields[k]).base_type == name && spec_names_match(
                rn,
                spec_field_rel_name(fields[k]),
            )) ==> spec_back_field(fields, name, rn) is Some,
    decreases fields.len(),
{
    if fields.len() > 0 {
        let rest = fields.drop_first();
        lemma_back_field_found(rest, name, rn);
        if let Some(g) = spec_back_field(fields, name, rn) {
            if !(fields[0].base_type == name && spec_names_match(rn, spec_field_rel_name(fields[0]))) {
                let k = choose|k: int| 0 <= k < rest.len() && rest[k] == g && g.base_type == name;
                assert(fields[k + 1] == g);
            }
        }
        if exists|k: int|
            0 <= k < fields.len() && (#[trigger] fields[k]).base_type == name && spec_names_match(
                rn,
                spec_field_rel_name(fields[k]),
            ) {
            let k = choose|k: int|
                0 <= k < fields.len() && (#[trigger] fields[k]).base_type == name
                    && spec_names_match(rn, spec_field_rel_name(fields[k]));
            if k > 0 {
                assert(rest[k - 1] == fields[k]);
            }
        }
    }
}

proof fn lemma_first_model_found(models: Seq<SpecRawModel>, t: Seq<char>)
    ensures
        spec_first_model(models, t) matches Some(m) ==> exists|i: int|
            0 <= i < models.len() && models[i] == m && m.name == t,
        spec_has_model(models, t) ==> spec_first_model(models, t) is Some,
    decreases models.len(),
{
    if models.len() > 0 {
        lemma_first_model_found(models.drop_first(), t);
        if let Some(m) = spec_first_model(models, t) {
            if models[0].name != t {
                let i = choose|i: int|
                    0 <= i < models.drop_first().len() && models.drop_first()[i] == m && m.name
                        == t;
                assert(models[i + 1] == m);
            }
        }
        if spec_has_model(models, t) && models[0].name != t {
            let i = choose|i: int| 0 <= i < models.len() && models[i].name == t;
            assert(models.drop_first()[i - 1] == models[i]);
        }
    }
}

/// The kind of the relation that a declaration gives, read from the models
/// named by its target.
proof fn lemma_relation_kind_of(ri: SpecRelInfo, models: Seq<SpecRawModel>)
    requires
        spec_has_model(models, ri.target),
    ensures
        (forall|t: int|
            0 <= t < models.len() && (#[trigger] models[t].name) == ri.target
                ==> spec_refers_by_lists_only(models[t], ri.owner))
            ==> spec_relation_of(ri, models).kind == SpecRelationKind::OneToMany,
        (forall|t: int|
            0 <= t < models.len() && (#[trigger] models[t].name) == ri.target
                ==> spec_refers_by_single_named(models[t], ri.owner, ri.rel_name))
            ==> spec_relation_of(ri, models).kind == (SpecRelationKind::OneToOne {
                owner_table: ri.owner,
            }),
{
    let owner = ri.owner;
    let rn = ri.rel_name;
    lemma_first_model_found(models, ri.target);
    let om = spec_first_model(models, ri.target)->0;
    let ti = choose|ti: int| 0 <= ti < models.len() && models[ti] == om && om.name == ri.target;
    lemma_back_field_found(om.fields, owner, rn);
    if forall|t: int|
        0 <= t < models.len() && (#[trigger] models[t].name) == ri.target
            ==> spec_refers_by_lists_only(models[t], owner) {
        assert(models[ti].name == ri.target);
        assert(spec_refers_by_lists_only(om, owner));
        if let Some(g) = spec_back_field(om.fields, owner, rn) {
            let k = choose|k: int| 0 <= k < om.fields.len() && om.fields[k] == g && g.base_type == owner;
            assert(om.fields[k].is_array);
        }
    }
    if forall|t: int|
        0 <= t < models.len() && (#[trigger] models[t].name) == ri.target
            ==> spec_refers_by_single_named(models[t], owner, rn) {
        assert(models[ti].name == ri.target);
        assert(spec_refers_by_single_named(om, owner, rn));
        let k0 = choose|k: int|
            0 <= k < om.fields.len() && (#[trigger] om.fields[k]).base_type == owner && rn
                == spec_field_rel_name(om.fields[k]);
        assert(spec_names_match(rn, spec_field_rel_name(om.fields[k0])));
        let g = spec_back_field(om.fields, owner, rn)->0;
        let k = choose|k: int| 0 <= k < om.fields.len() && om.fields[k] == g && g.base_type == owner;
        assert(!om.fields[k].is_array);
    }
}

/// The relation that a field with `@relation(fields: [...])` declares, as its
/// own table holds it, runs from the model the field names to the declaring
/// model, carries the relation name given by `name:` (else by the first
/// positional string), and is held by the named model's table as well. Its
/// kind is one-to-many when every model of that name refers back to the
/// declaring model only through list fields (or not at all), and one-to-one,
/// owned by the declaring model, when each refers back only through single
/// fields, one of which carries the same relation name.
pub proof fn law_relation_kind(
    models: Seq<SpecRawModel>,
    enums: Seq<Seq<char>>,
    aliases: Seq<SpecRawTypeAlias>,
    j: int,
    i: int,
)
    requires
        0 <= j < models.len(),
        0 <= i < models[j].fields.len(),
        spec_declares_fk(models, models[j].fields[i]),
    ensures
        ({
            let f = models[j].fields[i];
            let ra = spec_find_attr(f.attrs, "relation"@)->0;
            let owner = models[j].name;
            let rn = spec_declared_relation_name(ra.args);
            let ts = spec_resolve_models(models, enums, aliases);
            exists|k: int|
                0 <= k < ts[j].relations.len() && {
                    let r = #[trigger] ts[j].relations[k];
                    &&& r.from_table == f.base_type
                    &&& r.to_table == owner
                    &&& r.to_fields == spec_names_arg(ra, "fields"@)
                    &&& r.name == rn
                    &&& (forall|t: int|
                        0 <= t < models.len() && (#[trigger] models[t].name) == f.base_type
                            ==> ts[t].relations.contains(r))
                    &&& (forall|t: int|
                        0 <= t < models.len() && (#[trigger] models[t].name) == f.base_type
                            ==> spec_refers_by_lists_only(models[t], owner))
                        ==> r.kind == SpecRelationKind::OneToMany
                    &&& (forall|t: int|
                        0 <= t < models.len() && (#[trigger] models[t].name) == f.base_type
                            ==> spec_refers_by_single_named(models[t], owner, rn))
                        ==> r.kind == (SpecRelationKind::OneToOne { owner_table: owner })
                }
        }),
{
    let f = models[j].fields[i];
    let ra = spec_find_attr(f.attrs, "relation"@)->0;
    let owner = models[j].name;
    let rn = spec_declared_relation_name(ra.args);
    let ts = spec_resolve_models(models, enums, aliases);
    let ri = spec_rel_info_of(models[j], f, ra);
    assert(spec_relation_name(ra) == rn);
    let t0 = choose|t: int| 0 <= t < models.len() && models[t].name == f.base_type;
    law_foreign_key_on_owner(models, enums, aliases, j, i, t0);
    let r = spec_relation_of(ri, models);
    assert forall|t: int|
        0 <= t < models.len() && (#[trigger] models[t].name) == f.base_type implies ts[t].relations.contains(
        r,
    ) by {
        law_foreign_key_on_owner(models, enums, aliases, j, i, t);
    }
    lemma_relation_kind_of(ri, models);
    let k = choose|k: int| 0 <= k < ts[j].relations.len() && ts[j].relations[k] == r;
    assert(ts[j].relations[k] == r);
}


/// The relation name that a field's `@relation` gives, as the other side of a
/// relation and an implicit many-to-many pair read it: the value of `name:`
/// when that is a string, else (without a `name:`) the first positional
/// argument when that is a string; none without a `@relation`.
pub proof fn law_field_relation_name(f: SpecRawField)
    ensures
        spec_field_rel_name(f) == match spec_find_attr(f.attrs, "relation"@) {
            Some(a) => match spec_named(a.args, "name"@) {
                Some(SpecRawValue::Str(n)) => Some(n),
                Some(_) => None,
                None => match spec_first_positional(a.args) {
                    Some(SpecRawValue::Str(n)) => Some(n),
                    _ => None,
                },
            },
            None => None,
        },
{
}


// ── Where implicit many-to-many relations come from ──────────────────────

/// Whether `key` is the implicit many-to-many pair that some list field of
/// the schema forms.
pub open spec fn spec_m2m_origin(
    models: Seq<SpecRawModel>,
    key: (Seq<char>, Seq<char>, Option<Seq<char>>),
) -> bool {
    exists|a: int, i: int|
        0 <= a < models.len() && 0 <= i < models[a].fields.len() && spec_forms_m2m(
            models,
            models[a],
            #[trigger] models[a].fields[i],
        ) && key == spec_m2m_key(
            models[a].name,
            models[a].fields[i].base_type,
            spec_field_rel_name(models[a].fields[i]),
        )
}

proof fn lemma_m2m_step_origin(
    models: Seq<SpecRawModel>,
    m: SpecRawModel,
    f: SpecRawField,
    acc: SpecCollect,
)
    ensures
        forall|x|
            #[trigger] spec_collect_step(models, m, f, acc).m2m.contains(x) ==> acc.m2m.contains(x)
                || (spec_forms_m2m(models, m, f) && x == spec_m2m_key(
                m.name,
                f.base_type,
                spec_field_rel_name(f),
            )),
{
    let r = spec_collect_step(models, m, f, acc);
    lemma_first_model_found(models, f.base_type);
    assert forall|x| #[trigger] r.m2m.contains(x) implies acc.m2m.contains(x) || (spec_forms_m2m(
        models,
        m,
        f,
    ) && x == spec_m2m_key(m.name, f.base_type, spec_field_rel_name(f))) by {
        if !acc.m2m.contains(x) {
            let k = choose|k: int| 0 <= k < r.m2m.len() && r.m2m[k] == x;
            if r.m2m.len() == acc.m2m.len() + 1 && k < acc.m2m.len() {
                assert(r.m2m[k] == acc.m2m[k]);
            }
            if r.m2m == acc.m2m {
                assert(acc.m2m[k] == x);
            }
        }
    }
}

proof fn lemma_m2m_fields_origin(
    models: Seq<SpecRawModel>,
    m: SpecRawModel,
    fields: Seq<SpecRawField>,
    acc: SpecCollect,
)
    ensures
        forall|x|
            #[trigger] spec_collect_fields(models, m, fields, acc).m2m.contains(x) ==> acc.m2m.contains(x)
                || exists|i: int|
                0 <= i < fields.len() && spec_forms_m2m(models, m, #[trigger] fields[i]) && x
                    == spec_m2m_key(m.name, fields[i].base_type, spec_field_rel_name(fields[i])),
    decreases fields.len(),
{
    if fields.len() > 0 {
        let prev = spec_collect_fields(models, m, fields.drop_last(), acc);
        lemma_m2m_fields_origin(models, m, fields.drop_last(), acc);
        lemma_m2m_step_origin(models, m, fields.last(), prev);
        let r = spec_collect_fields(models, m, fields, acc);
        assert forall|x| #[trigger] r.m2m.contains(x) implies acc.m2m.contains(x) || exists|i: int|
            0 <= i < fields.len() && spec_forms_m2m(models, m, #[trigger] fields[i]) && x
                == spec_m2m_key(m.name, fields[i].base_type, spec_field_rel_name(fields[i])) by {
            if prev.m2m.contains(x) {
                if !acc.m2m.contains(x) {
                    let i = choose|i: int|
                        0 <= i < fields.drop_last().len() && spec_forms_m2m(
                            models,
                            m,
                            #[trigger] fields.drop_last()[i],
                        ) && x == spec_m2m_key(
                            m.name,
                            fields.drop_last()[i].base_type,
                            spec_field_rel_name(fields.drop_last()[i]),
                        );
                    assert(fields[i] == fields.drop_last()[i]);
                }
            } else {
                let i = fields.len() - 1;
                assert(fields[i] == fields.last());
            }
        }
    }
}

proof fn lemma_m2m_models_origin(models: Seq<SpecRawModel>, upto: Seq<SpecRawModel>)
    ensures
        forall|x|
            #[trigger] spec_collect_models(models, upto).m2m.contains(x) ==> exists|a: int, i: int|
                0 <= a < upto.len() && 0 <= i < upto[a].fields.len() && spec_forms_m2m(
                    models,
                    upto[a],
                    #[trigger] upto[a].fields[i],
                ) && x == spec_m2m_key(
                    upto[a].name,
                    upto[a].fields[i].base_type,
                    spec_field_rel_name(upto[a].fields[i]),
                ),
    decreases upto.len(),
{
    if upto.len() > 0 {
        let prev = spec_collect_models(models, upto.drop_last());
        lemma_m2m_models_origin(models, upto.drop_last());
        let last = upto.last();
        lemma_m2m_fields_origin(models, last, last.fields, prev);
        let r = spec_collect_models(models, upto);
        assert forall|x| #[trigger] r.m2m.contains(x) implies exists|a: int, i: int|
            0 <= a < upto.len() && 0 <= i < upto[a].fields.len() && spec_forms_m2m(
                models,
                upto[a],
                #[trigger] upto[a].fields[i],
            ) && x == spec_m2m_key(
                upto[a].name,
                upto[a].fields[i].base_type,
                spec_field_rel_name(upto[a].fields[i]),
            ) by {
            if prev.m2m.contains(x) {
                let (a, i) = choose|a: int, i: int|
                    0 <= a < upto.drop_last().len() && 0 <= i < upto.drop_last()[a].fields.len()
                        && spec_forms_m2m(
                        models,
                        upto.drop_last()[a],
                        #[trigger] upto.drop_last()[a].fields[i],
                    ) && x == spec_m2m_key(
                        upto.drop_last()[a].name,
                        upto.drop_last()[a].fields[i].base_type,
                        spec_field_rel_name(upto.drop_last()[a].fields[i]),
                    );
                assert(upto[a] == upto.drop_last()[a]);
            } else {
                let a = upto.len() - 1;
                assert(upto[a] == last);
                let i = choose|i: int|
                    0 <= i < last.fields.len() && spec_forms_m2m(models, last, #[trigger] last.fields[i])
                        && x == spec_m2m_key(
                        last.name,
                        last.fields[i].base_type,
                        spec_field_rel_name(last.fields[i]),
                    );
                assert(upto[a].fields[i] == last.fields[i]);
            }
        }
    }
}

proof fn lemma_rels_for_kinds(rels: Seq<SpecRelInfo>, name: Seq<char>, models: Seq<SpecRawModel>)
    ensures
        forall|k: int|
            0 <= k < spec_rels_for(rels, name, models).len() ==> !((#[trigger] spec_rels_for(
                rels,
                name,
                models,
            )[k]).kind is ManyToMany),
    decreases rels.len(),
{
    if rels.len() > 0 {
        lemma_rels_for_kinds(rels.drop_last(), name, models);
        let prev = spec_rels_for(rels.drop_last(), name, models);
        let r = spec_rels_for(rels, name, models);
        assert forall|k: int| 0 <= k < r.len() implies !((#[trigger] r[k]).kind is ManyToMany) by {
            if k < prev.len() {
                assert(r[k] == prev[k]);
            }
        }
    }
}

proof fn lemma_m2m_for_keys(
    keys: Seq<(Seq<char>, Seq<char>, Option<Seq<char>>)>,
    name: Seq<char>,
)
    ensures
        forall|k: int|
            0 <= k < spec_m2m_for(keys, name).len() ==> exists|q: int|
                0 <= q < keys.len() && ((keys[q].0 == name && #[trigger] spec_m2m_for(
                    keys,
                    name,
                )[k] == spec_m2m_relation(keys[q], keys[q].0, keys[q].1)) || (keys[q].1 == name
                    && spec_m2m_for(keys, name)[k] == spec_m2m_relation(
                    keys[q],
                    keys[q].1,
                    keys[q].0,
                ))),
    decreases keys.len(),
{
    if keys.len() > 0 {
        let rest = keys.drop_last();
        lemma_m2m_for_keys(rest, name);
        let prev = spec_m2m_for(rest, name);
        let r = spec_m2m_for(keys, name);
        assert forall|k: int| 0 <= k < r.len() implies exists|q: int|
            0 <= q < keys.len() && ((keys[q].0 == name && #[trigger] r[k] == spec_m2m_relation(
                keys[q],
                keys[q].0,
                keys[q].1,
            )) || (keys[q].1 == name && r[k] == spec_m2m_relation(keys[q], keys[q].1, keys[q].0))) by {
            if k < prev.len() {
                assert(r[k] == prev[k]);
                let q = choose|q: int|
                    0 <= q < rest.len() && ((rest[q].0 == name && #[trigger] prev[k]
                        == spec_m2m_relation(rest[q], rest[q].0, rest[q].1)) || (rest[q].1 == name
                        && prev[k] == spec_m2m_relation(rest[q], rest[q].1, rest[q].0)));
                assert(keys[q] == rest[q]);
            } else {
                assert(keys[keys.len() - 1] == keys.last());
            }
        }
    }
}

/// A table holds a many-to-many relation only where a list field of one of
/// two models names the other, which lists the first back, with no foreign
/// key between them and no `fields:` on the field's `@relation`. The relation
/// runs from the table's model to the other model, carries that field's
/// relation name, and uses the junction table `_<A>To<B>` over the two names
/// in order, with columns `A` and `B`.
pub proof fn law_many_to_many_origin(
    models: Seq<SpecRawModel>,
    enums: Seq<Seq<char>>,
    aliases: Seq<SpecRawTypeAlias>,
    j: int,
    k: int,
)
    requires
        0 <= j < models.len(),
        0 <= k < spec_resolve_models(models, enums, aliases)[j].relations.len(),
        spec_resolve_models(models, enums, aliases)[j].relations[k].kind is ManyToMany,
    ensures
        ({
            let r = spec_resolve_models(models, enums, aliases)[j].relations[k];
            let name = models[j].name;
            exists|a: int, i: int|
                0 <= a < models.len() && 0 <= i < models[a].fields.len() && spec_forms_m2m(
                    models,
                    models[a],
                    #[trigger] models[a].fields[i],
                ) && {
                    let f = models[a].fields[i];
                    let key = spec_m2m_key(models[a].name, f.base_type, spec_field_rel_name(f));
                    &&& (models[a].name == name && f.base_type == r.to_table) || (f.base_type
                        == name && models[a].name == r.to_table)
                    &&& r.from_table == name
                    &&& r.name == spec_field_rel_name(f)
                    &&& r.kind == (SpecRelationKind::ManyToMany {
                        junction: SpecJunctionTable {
                            table: "_"@ + key.0 + "To"@ + key.1,
                            from_column: "A"@,
                            to_column: "B"@,
                        },
                        implicit: true,
                    })
                }
        }),
{
    let ts = spec_resolve_models(models, enums, aliases);
    let coll = spec_collect_models(models, models);
    let name = models[j].name;
    let ra = spec_rels_for(coll.rels, name, models);
    let rb = spec_m2m_for(coll.m2m, name);
    assert(ts[j].relations == ra + rb);
    let r = ts[j].relations[k];
    lemma_rels_for_kinds(coll.rels, name, models);
    if k < ra.len() {
        assert(r == ra[k]);
        assert(false);
    }
    assert(r == rb[k - ra.len()]);
    lemma_m2m_for_keys(coll.m2m, name);
    let q = choose|q: int|
        0 <= q < coll.m2m.len() && ((coll.m2m[q].0 == name && #[trigger] rb[k - ra.len()]
            == spec_m2m_relation(coll.m2m[q], coll.m2m[q].0, coll.m2m[q].1)) || (coll.m2m[q].1
            == name && rb[k - ra.len()] == spec_m2m_relation(
            coll.m2m[q],
            coll.m2m[q].1,
            coll.m2m[q].0,
        )));
    let key = coll.m2m[q];
    assert(coll.m2m.contains(key));
    lemma_m2m_models_origin(models, models);
    let (a, i) = choose|a: int, i: int|
        0 <= a < models.len() && 0 <= i < models[a].fields.len() && spec_forms_m2m(
            models,
            models[a],
            #[trigger] models[a].fields[i],
        ) && key == spec_m2m_key(
            models[a].name,
            models[a].fields[i].base_type,
            spec_field_rel_name(models[a].fields[i]),
        );
    assert(spec_forms_m2m(models, models[a], models[a].fields[i]));
}


// ── Each implicit pair once ────────────────────────────────────────────────

/// Whether implicit many-to-many keys are pairwise distinct, each with its
/// two model names in order.
pub open spec fn spec_keys_ok(keys: Seq<(Seq<char>, Seq<char>, Option<Seq<char>>)>) -> bool {
    &&& forall|p: int, q: int| 0 <= p < q < keys.len() ==> #[trigger] keys[p] != #[trigger] keys[q]
    &&& forall|p: int| 0 <= p < keys.len() ==> spec_str_le((#[trigger] keys[p]).0, keys[p].1)
}

proof fn lemma_keys_ok_push(
    keys: Seq<(Seq<char>, Seq<char>, Option<Seq<char>>)>,
    key: (Seq<char>, Seq<char>, Option<Seq<char>>),
)
    requires
        spec_keys_ok(keys),
        !keys.contains(key),
        spec_str_le(key.0, key.1),
    ensures
        spec_keys_ok(keys.push(key)),
{
    let r = keys.push(key);
    assert forall|p: int, q: int| 0 <= p < q < r.len() implies #[trigger] r[p] != #[trigger] r[q] by {
        if q == keys.len() {
            assert(r[p] == keys[p]);
        } else {
            assert(r[p] == keys[p] && r[q] == keys[q]);
        }
    }
    assert forall|p: int| 0 <= p < r.len() implies spec_str_le((#[trigger] r[p]).0, r[p].1) by {
        if p < keys.len() {
            assert(r[p] == keys[p]);
        }
    }
}

proof fn lemma_m2m_key_sorted(a: Seq<char>, b: Seq<char>, rn: Option<Seq<char>>)
    ensures
        spec_str_le(spec_m2m_key(a, b, rn).0, spec_m2m_key(a, b, rn).1),
{
    lemma_str_le_total(a, b);
}

proof fn lemma_keys_ok_fields(
    models: Seq<SpecRawModel>,
    m: SpecRawModel,
    fields: Seq<SpecRawField>,
    acc: SpecCollect,
)
    requires
        spec_keys_ok(acc.m2m),
    ensures
        spec_keys_ok(spec_collect_fields(models, m, fields, acc).m2m),
    decreases fields.len(),
{
    if fields.len() > 0 {
        lemma_keys_ok_fields(models, m, fields.drop_last(), acc);
        let prev = spec_collect_fields(models, m, fields.drop_last(), acc);
        let f = fields.last();
        let key = spec_m2m_key(m.name, f.base_type, spec_field_rel_name(f));
        lemma_m2m_key_sorted(m.name, f.base_type, spec_field_rel_name(f));
        if spec_collect_step(models, m, f, prev).m2m != prev.m2m {
            lemma_keys_ok_push(prev.m2m, key);
        }
    }
}

proof fn lemma_keys_ok_models(models: Seq<SpecRawModel>, upto: Seq<SpecRawModel>)
    ensures
        spec_keys_ok(spec_collect_models(models, upto).m2m),
    decreases upto.len(),
{
    if upto.len() > 0 {
        lemma_keys_ok_models(models, upto.drop_last());
        lemma_keys_ok_fields(
            models,
            upto.last(),
            upto.last().fields,
            spec_collect_models(models, upto.drop_last()),
        );
    }
}

/// The relation of a pair as table `name` sees it.
pub open spec fn spec_m2m_seen(key: (Seq<char>, Seq<char>, Option<Seq<char>>), name: Seq<char>) -> SpecRelation {
    if key.0 == name {
        spec_m2m_relation(key, key.0, key.1)
    } else {
        spec_m2m_relation(key, key.1, key.0)
    }
}

proof fn lemma_m2m_seen_injective(
    k1: (Seq<char>, Seq<char>, Option<Seq<char>>),
    k2: (Seq<char>, Seq<char>, Option<Seq<char>>),
    name: Seq<char>,
)
    requires
        k1.0 == name || k1.1 == name,
        k2.0 == name || k2.1 == name,
        spec_str_le(k1.0, k1.1),
        spec_str_le(k2.0, k2.1),
        spec_m2m_seen(k1, name) == spec_m2m_seen(k2, name),
    ensures
        k1 == k2,
{
    if k1.0 == name && k2.0 != name {
        lemma_str_le_antisym(k2.0, k2.1);
    }
    if k2.0 == name && k1.0 != name {
        lemma_str_le_antisym(k1.0, k1.1);
    }
}

proof fn lemma_m2m_for_distinct(
    keys: Seq<(Seq<char>, Seq<char>, Option<Seq<char>>)>,
    name: Seq<char>,
)
    requires
        spec_keys_ok(keys),
    ensures
        forall|p: int, q: int|
            0 <= p < q < spec_m2m_for(keys, name).len() ==> #[trigger] spec_m2m_for(keys, name)[p]
                != #[trigger] spec_m2m_for(keys, name)[q],
        forall|p: int|
            0 <= p < spec_m2m_for(keys, name).len() ==> exists|q: int|
                0 <= q < keys.len() && (keys[q].0 == name || keys[q].1 == name) && #[trigger] spec_m2m_for(
                    keys,
                    name,
                )[p] == spec_m2m_seen(keys[q], name),
    decreases keys.len(),
{
    if keys.len() > 0 {
        let rest = keys.drop_last();
        assert(spec_keys_ok(rest)) by {
            assert forall|p: int, q: int| 0 <= p < q < rest.len() implies #[trigger] rest[p]
                != #[trigger] rest[q] by {
                assert(rest[p] == keys[p] && rest[q] == keys[q]);
            }
            assert forall|p: int| 0 <= p < rest.len() implies spec_str_le(
                (#[trigger] rest[p]).0,
                rest[p].1,
            ) by {
                assert(rest[p] == keys[p]);
            }
        }
        lemma_m2m_for_distinct(rest, name);
        let prev = spec_m2m_for(rest, name);
        let r = spec_m2m_for(keys, name);
        let last = keys.last();
        assert(keys[keys.len() - 1] == last);
        assert forall|p: int| 0 <= p < r.len() implies exists|q: int|
            0 <= q < keys.len() && (keys[q].0 == name || keys[q].1 == name) && #[trigger] r[p]
                == spec_m2m_seen(keys[q], name) by {
            if p < prev.len() {
                assert(r[p] == prev[p]);
                let q = choose|q: int|
                    0 <= q < rest.len() && (rest[q].0 == name || rest[q].1 == name) && #[trigger] prev[p]
                        == spec_m2m_seen(rest[q], name);
                assert(keys[q] == rest[q]);
            }
        }
        assert forall|p: int, q: int| 0 <= p < q < r.len() implies #[trigger] r[p] != #[trigger] r[q] by {
            if q < prev.len() {
                assert(r[p] == prev[p] && r[q] == prev[q]);
            } else {
                assert(r[p] == prev[p]);
                let qq = choose|qq: int|
                    0 <= qq < rest.len() && (rest[qq].0 == name || rest[qq].1 == name)
                        && #[trigger] prev[p] == spec_m2m_seen(rest[qq], name);
                assert(keys[qq] == rest[qq]);
                assert(keys[qq] != last);
                if r[p] == r[q] {
                    lemma_m2m_seen_injective(rest[qq], last, name);
                }
            }
        }
    }
}

/// Each implicit many-to-many pair is recorded once, so the many-to-many
/// relations that a table holds are pairwise distinct.
pub proof fn law_many_to_many_once(
    models: Seq<SpecRawModel>,
    enums: Seq<Seq<char>>,
    aliases: Seq<SpecRawTypeAlias>,
    j: int,
)
    requires
        0 <= j < models.len(),
    ensures
        ({
            let rs = spec_resolve_models(models, enums, aliases)[j].relations;
            forall|p: int, q: int|
                0 <= p < q < rs.len() && (#[trigger] rs[p]).kind is ManyToMany ==> rs[p]
                    != #[trigger] rs[q]
        }),
{
    let ts = spec_resolve_models(models, enums, aliases);
    let coll = spec_collect_models(models, models);
    let name = models[j].name;
    let ra = spec_rels_for(coll.rels, name, models);
    let rb = spec_m2m_for(coll.m2m, name);
    let rs = ts[j].relations;
    assert(rs == ra + rb);
    lemma_rels_for_kinds(coll.rels, name, models);
    lemma_keys_ok_models(models, models);
    lemma_m2m_for_distinct(coll.m2m, name);
    assert forall|p: int, q: int|
        0 <= p < q < rs.len() && (#[trigger] rs[p]).kind is ManyToMany implies rs[p]
        != #[trigger] rs[q] by {
        if p < ra.len() {
            assert(rs[p] == ra[p]);
        } else {
            assert(rs[p] == rb[p - ra.len()] && rs[q] == rb[q - ra.len()]);
        }
    }
}

} // verus!
