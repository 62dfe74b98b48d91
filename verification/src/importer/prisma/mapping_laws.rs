//! What the importer's mappings give, stated over the attributes they read.
use vstd::prelude::*;
use super::ast::{
    spec_as_str, spec_find_attr, spec_first_positional, spec_first_positional_str, SpecEnumEntry,
    SpecRawArg, SpecRawAttr, SpecRawEnum, SpecRawField, SpecRawModel, SpecRawValue,
};
use super::laws::spec_ignored_column_names;
use super::mappers::{
    spec_arg_json, spec_args_json, spec_args_to_json, spec_first_int, spec_first_positional_string,
    spec_index_columns, spec_map_db_hint, spec_map_default_value, spec_map_index_type,
    spec_map_scalar_type, spec_named_int, spec_parse_referential_action, spec_positional_ints,
    spec_sort_of, spec_value_json, spec_values_json,
};
use super::resolver::{
    spec_enum_entries, spec_enum_of, spec_ignored_names, spec_map_provider, spec_value_db_name,
    spec_view_of,
};
use super::scalar_table::{spec_block_feature, spec_has_model, spec_unknown_block_features};
use crate::json::{keys_sorted, member_index, member_value, SpecJson};
use crate::pivot::metadata::{SpecOrmKind, SpecUnknownFeature};
use crate::pivot::relation::ReferentialAction;
use crate::pivot::schema::SpecDatabaseKind;
use crate::pivot::table::{SortDirection, SpecIndexColumn, SpecIndexType};
use crate::pivot::types::{
    SpecDbHint, SpecDefaultFn, SpecDefaultValue, SpecLiteralValue, SpecScalarType,
};
use crate::text::spec_str_le;

verus! {

// ── Column defaults ────────────────────────────────────────────────────────

/// A default given as a value keeps that value: a string, an integer or a
/// decimal as the same literal, `true`/`false` as booleans and any other
/// identifier (an enum value) as a string; an array gives no default.
pub proof fn law_default_literals(v: SpecRawValue)
    ensures
        v matches SpecRawValue::Str(s) ==> spec_map_default_value(v) == Some(
            SpecDefaultValue::Literal(SpecLiteralValue::String(s)),
        ),
        v matches SpecRawValue::Int(n) ==> spec_map_default_value(v) == Some(
            SpecDefaultValue::Literal(SpecLiteralValue::Int(n)),
        ),
        v matches SpecRawValue::Float(t) ==> spec_map_default_value(v) == Some(
            SpecDefaultValue::Literal(SpecLiteralValue::Float(t)),
        ),
        v == SpecRawValue::Ident("true"@) ==> spec_map_default_value(v) == Some(
            SpecDefaultValue::Literal(SpecLiteralValue::Bool(true)),
        ),
        v == SpecRawValue::Ident("false"@) ==> spec_map_default_value(v) == Some(
            SpecDefaultValue::Literal(SpecLiteralValue::Bool(false)),
        ),
        v matches SpecRawValue::Ident(s) ==> (s != "true"@ && s != "false"@ ==> spec_map_default_value(
            v,
        ) == Some(SpecDefaultValue::Literal(SpecLiteralValue::String(s)))),
        v is Array ==> spec_map_default_value(v) is None,
{
    reveal_strlit("true");
    reveal_strlit("false");
    assert("true"@ != "false"@) by {
        assert("true"@.len() != "false"@.len());
    }
}

/// Each generator function called in a default gives its own function:
/// `autoincrement()`, `now()`, `uuid()`, `cuid()`, `cuid2()` and `ulid()`,
/// whatever their arguments; `dbgenerated("expr")` gives the raw expression.
pub proof fn law_default_functions(name: Seq<char>, args: Seq<SpecRawArg>)
    ensures
        name == "autoincrement"@ ==> spec_map_default_value(SpecRawValue::Call(name, args))
            == Some(SpecDefaultValue::Function(SpecDefaultFn::AutoIncrement)),
        name == "now"@ ==> spec_map_default_value(SpecRawValue::Call(name, args)) == Some(
            SpecDefaultValue::Function(SpecDefaultFn::Now),
        ),
        name == "uuid"@ ==> spec_map_default_value(SpecRawValue::Call(name, args)) == Some(
            SpecDefaultValue::Function(SpecDefaultFn::Uuid),
        ),
        name == "cuid"@ ==> spec_map_default_value(SpecRawValue::Call(name, args)) == Some(
            SpecDefaultValue::Function(SpecDefaultFn::Cuid),
        ),
        name == "cuid2"@ ==> spec_map_default_value(SpecRawValue::Call(name, args)) == Some(
            SpecDefaultValue::Function(SpecDefaultFn::Cuid2),
        ),
        name == "ulid"@ ==> spec_map_default_value(SpecRawValue::Call(name, args)) == Some(
            SpecDefaultValue::Function(SpecDefaultFn::Ulid),
        ),
        name == "dbgenerated"@ ==> spec_map_default_value(SpecRawValue::Call(name, args))
            == Some(
            SpecDefaultValue::Raw(
                match spec_first_positional_string(args) {
                    Some(e) => e,
                    None => Seq::empty(),
                },
            ),
        ),
{
    reveal_strlit("autoincrement");
    reveal_strlit("now");
    reveal_strlit("uuid");
    reveal_strlit("cuid");
    reveal_strlit("cuid2");
    reveal_strlit("ulid");
    reveal_strlit("dbgenerated");
    let names = seq!["autoincrement"@, "now"@, "uuid"@, "cuid"@, "cuid2"@, "ulid"@, "dbgenerated"@];
    assert forall|i: int, j: int| 0 <= i < j < names.len() implies names[i] != names[j] by {
        if names[i].len() == names[j].len() {
            assert(names[i][0] != names[j][0] || names[i][1] != names[j][1]);
        }
    }
}

// ── Enums ──────────────────────────────────────────────────────────────────

/// The last block attribute `@@path(..)` among an enum's entries.
pub open spec fn spec_last_entry_attr(entries: Seq<SpecEnumEntry>, path: Seq<char>) -> Option<
    SpecRawAttr,
>
    decreases entries.len(),
{
    if entries.len() == 0 {
        None
    } else {
        match entries.last() {
            SpecEnumEntry::Attr(a) => if a.path == path {
                Some(a)
            } else {
                spec_last_entry_attr(entries.drop_last(), path)
            },
            SpecEnumEntry::Value(_, _) => spec_last_entry_attr(entries.drop_last(), path),
        }
    }
}

/// The names of an enum's values, in order.
pub open spec fn spec_value_names(entries: Seq<SpecEnumEntry>) -> Seq<Seq<char>>
    decreases entries.len(),
{
    if entries.len() == 0 {
        Seq::empty()
    } else {
        match entries.last() {
            SpecEnumEntry::Attr(_) => spec_value_names(entries.drop_last()),
            SpecEnumEntry::Value(n, _) => spec_value_names(entries.drop_last()).push(n),
        }
    }
}

proof fn lemma_enum_entries(name: Seq<char>, entries: Seq<SpecEnumEntry>)
    ensures
        ({
            let e = spec_enum_entries(name, entries);
            &&& e.name == name
            &&& e.db_name == match spec_last_entry_attr(entries, "map"@) {
                Some(a) => spec_first_positional_str(a.args),
                None => None,
            }
            &&& e.db_schema == match spec_last_entry_attr(entries, "schema"@) {
                Some(a) => spec_first_positional_str(a.args),
                None => None,
            }
            &&& e.values.len() == spec_value_names(entries).len()
            &&& forall|k: int|
                0 <= k < e.values.len() ==> (#[trigger] e.values[k]).name == spec_value_names(
                    entries,
                )[k]
        }),
    decreases entries.len(),
{
    reveal_strlit("map");
    reveal_strlit("schema");
    assert("map"@ != "schema"@) by {
        assert("map"@.len() != "schema"@.len());
    }
    if entries.len() > 0 {
        lemma_enum_entries(name, entries.drop_last());
        let prev = spec_enum_entries(name, entries.drop_last());
        let e = spec_enum_entries(name, entries);
        match entries.last() {
            SpecEnumEntry::Attr(a) => {},
            SpecEnumEntry::Value(n, attrs) => {
                assert forall|k: int| 0 <= k < e.values.len() implies (#[trigger] e.values[k]).name
                    == spec_value_names(entries)[k] by {
                    if k < prev.values.len() {
                        assert(e.values[k] == prev.values[k]);
                    }
                }
            },
        }
    }
}

/// The last attribute with the given path.
pub open spec fn spec_last_attr(attrs: Seq<SpecRawAttr>, path: Seq<char>) -> Option<SpecRawAttr>
    decreases attrs.len(),
{
    if attrs.len() == 0 {
        None
    } else if attrs.last().path == path {
        Some(attrs.last())
    } else {
        spec_last_attr(attrs.drop_last(), path)
    }
}

/// The attributes of an enum's values, in order.
pub open spec fn spec_value_attrs(entries: Seq<SpecEnumEntry>) -> Seq<Seq<SpecRawAttr>>
    decreases entries.len(),
{
    if entries.len() == 0 {
        Seq::empty()
    } else {
        match entries.last() {
            SpecEnumEntry::Attr(_) => spec_value_attrs(entries.drop_last()),
            SpecEnumEntry::Value(_, attrs) => spec_value_attrs(entries.drop_last()).push(attrs),
        }
    }
}

proof fn lemma_value_db_name(attrs: Seq<SpecRawAttr>)
    ensures
        spec_value_db_name(attrs) == match spec_last_attr(attrs, "map"@) {
            Some(a) => spec_first_positional_str(a.args),
            None => None,
        },
    decreases attrs.len(),
{
    if attrs.len() > 0 {
        lemma_value_db_name(attrs.drop_last());
    }
}

proof fn lemma_enum_value_attrs(name: Seq<char>, entries: Seq<SpecEnumEntry>)
    ensures
        spec_enum_entries(name, entries).values.len() == spec_value_attrs(entries).len(),
        forall|k: int|
            0 <= k < spec_value_attrs(entries).len() ==> (#[trigger] spec_enum_entries(
                name,
                entries,
            ).values[k]).db_name == spec_value_db_name(spec_value_attrs(entries)[k]),
    decreases entries.len(),
{
    if entries.len() > 0 {
        lemma_enum_value_attrs(name, entries.drop_last());
        let prev = spec_enum_entries(name, entries.drop_last());
        let e = spec_enum_entries(name, entries);
        match entries.last() {
            SpecEnumEntry::Attr(a) => {},
            SpecEnumEntry::Value(n, attrs) => {
                assert forall|k: int| 0 <= k < spec_value_attrs(entries).len() implies (
                #[trigger] e.values[k]).db_name == spec_value_db_name(
                    spec_value_attrs(entries)[k],
                ) by {
                    if k < prev.values.len() {
                        assert(e.values[k] == prev.values[k]);
                    }
                }
            },
        }
    }
}

/// Each value of an enum takes as its database name the string given to its
/// last `@map` (none when it has none).
pub proof fn law_enum_value_naming(e: SpecRawEnum)
    ensures
        spec_enum_of(e).values.len() == spec_value_attrs(e.entries).len(),
        forall|k: int|
            0 <= k < spec_enum_of(e).values.len() ==> (#[trigger] spec_enum_of(e).values[k]).db_name
                == match spec_last_attr(spec_value_attrs(e.entries)[k], "map"@) {
                Some(a) => spec_first_positional_str(a.args),
                None => None,
            },
{
    lemma_enum_value_attrs(e.name, e.entries);
    assert forall|k: int| 0 <= k < spec_enum_of(e).values.len() implies (#[trigger] spec_enum_of(
        e,
    ).values[k]).db_name == match spec_last_attr(spec_value_attrs(e.entries)[k], "map"@) {
        Some(a) => spec_first_positional_str(a.args),
        None => None,
    } by {
        lemma_value_db_name(spec_value_attrs(e.entries)[k]);
    }
}

/// An enum keeps its name; its database name is the string given to its last
/// `@@map`, its database schema the string given to its last `@@schema`
/// (none when there is no such attribute); and its values are the value
/// entries, by name, in order.
pub proof fn law_enum_naming(e: SpecRawEnum)
    ensures
        spec_enum_of(e).name == e.name,
        spec_enum_of(e).db_name == match spec_last_entry_attr(e.entries, "map"@) {
            Some(a) => spec_first_positional_str(a.args),
            None => None,
        },
        spec_enum_of(e).db_schema == match spec_last_entry_attr(e.entries, "schema"@) {
            Some(a) => spec_first_positional_str(a.args),
            None => None,
        },
        spec_enum_of(e).values.len() == spec_value_names(e.entries).len(),
        forall|k: int|
            0 <= k < spec_enum_of(e).values.len() ==> (#[trigger] spec_enum_of(e).values[k]).name
                == spec_value_names(e.entries)[k],
{
    lemma_enum_entries(e.name, e.entries);
}

/// `@db.Decimal` and `@db.Numeric` give a numeric hint whose precision and
/// scale come from the `precision:` and `scale:` integer arguments, else from
/// the positional integers in order (each truncated to a byte); with fewer
/// than two of them they give no hint.
pub proof fn law_db_hint_numeric(h: Seq<char>, args: Seq<SpecRawArg>)
    requires
        h == "Decimal"@ || h == "Numeric"@,
    ensures
        ({
            let np = spec_named_int(args, "precision"@);
            let ns = spec_named_int(args, "scale"@);
            let pos = spec_positional_ints(args);
            &&& np is Some && ns is Some ==> spec_map_db_hint("db."@ + h, args) == Some(
                SpecDbHint::Numeric { precision: np->0 as u8, scale: ns->0 as u8 },
            )
            &&& np is None && ns is None && pos.len() >= 2 ==> spec_map_db_hint("db."@ + h, args)
                == Some(SpecDbHint::Numeric { precision: pos[0] as u8, scale: pos[1] as u8 })
            &&& np is None && ns is None && pos.len() < 2 ==> spec_map_db_hint("db."@ + h, args)
                is None
        }),
{
    reveal_strlit("db.");
    let p = "db."@ + h;
    assert(p.subrange(3, p.len() as int) =~= h);
    assert("db."@.is_prefix_of(p));
    reveal_strlit("VarChar");
    reveal_strlit("Char");
    reveal_strlit("Text");
    reveal_strlit("TinyText");
    reveal_strlit("MediumText");
    reveal_strlit("LongText");
    reveal_strlit("SmallInt");
    reveal_strlit("Int");
    reveal_strlit("Integer");
    reveal_strlit("BigInt");
    reveal_strlit("TinyInt");
    reveal_strlit("MediumInt");
    reveal_strlit("Year");
    reveal_strlit("Float");
    reveal_strlit("DoublePrecision");
    reveal_strlit("Real");
    reveal_strlit("Decimal");
    reveal_strlit("Numeric");
    assert("VarChar"@[0] != "Decimal"@[0] && "VarChar"@[0] != "Numeric"@[0]);
    assert("Char"@[0] != "Decimal"@[0] && "Char"@[0] != "Numeric"@[0]);
    assert("Text"@[0] != "Decimal"@[0] && "Text"@[0] != "Numeric"@[0]);
    assert("TinyText"@[0] != "Decimal"@[0] && "TinyText"@[0] != "Numeric"@[0]);
    assert("MediumText"@[0] != "Decimal"@[0] && "MediumText"@[0] != "Numeric"@[0]);
    assert("LongText"@[0] != "Decimal"@[0] && "LongText"@[0] != "Numeric"@[0]);
    assert("SmallInt"@[0] != "Decimal"@[0] && "SmallInt"@[0] != "Numeric"@[0]);
    assert("Int"@[0] != "Decimal"@[0] && "Int"@[0] != "Numeric"@[0]);
    assert("Integer"@[0] != "Decimal"@[0] && "Integer"@[0] != "Numeric"@[0]);
    assert("BigInt"@[0] != "Decimal"@[0] && "BigInt"@[0] != "Numeric"@[0]);
    assert("TinyInt"@[0] != "Decimal"@[0] && "TinyInt"@[0] != "Numeric"@[0]);
    assert("MediumInt"@[0] != "Decimal"@[0] && "MediumInt"@[0] != "Numeric"@[0]);
    assert("Year"@[0] != "Decimal"@[0] && "Year"@[0] != "Numeric"@[0]);
    assert("Float"@[0] != "Decimal"@[0] && "Float"@[0] != "Numeric"@[0]);
    assert("DoublePrecision"@[1] != "Decimal"@[1] && "DoublePrecision"@[0] != "Numeric"@[0]);
    assert("Real"@[0] != "Decimal"@[0] && "Real"@[0] != "Numeric"@[0]);
}

/// Whether `h` is a native type name that has a hint of its own.
pub open spec fn spec_native_type_name(h: Seq<char>) -> bool {
    h == "VarChar"@ || h == "Char"@ || h == "Text"@ || h == "TinyText"@ ||
        h == "MediumText"@ || h == "LongText"@ || h == "SmallInt"@ || h == "Int"@ ||
        h == "Integer"@ || h == "BigInt"@ || h == "TinyInt"@ || h == "MediumInt"@ ||
        h == "Year"@ || h == "Float"@ || h == "DoublePrecision"@ || h == "Real"@ ||
        h == "Decimal"@ || h == "Numeric"@ || h == "VarBinary"@ || h == "Binary"@ ||
        h == "TinyBlob"@ || h == "Blob"@ || h == "MediumBlob"@ || h == "LongBlob"@ ||
        h == "ByteA"@ || h == "Bit"@ || h == "VarBit"@ || h == "Date"@ || h == "Time"@ ||
        h == "DateTime"@ || h == "Timestamp"@ || h == "Timestamptz"@ || h == "Timetz"@ ||
        h == "Interval"@ || h == "Uuid"@ || h == "Inet"@ || h == "Cidr"@ || h == "Xml"@ ||
        h == "Money"@ || h == "Oid"@
}

/// A `@db.<name>` attribute whose name has no hint of its own keeps that name
/// as a custom type expression; a path that does not start with `db.` gives
/// no hint.
pub proof fn law_db_hint_custom(path: Seq<char>, args: Seq<SpecRawArg>)
    ensures
        !"db."@.is_prefix_of(path) ==> spec_map_db_hint(path, args) is None,
        forall|h: Seq<char>|
            !spec_native_type_name(h) && path == "db."@ + h ==> spec_map_db_hint(path, args)
                == Some(SpecDbHint::Custom { type_expr: h }),
{
    reveal_strlit("db.");
    assert forall|h: Seq<char>|
        !spec_native_type_name(h) && path == "db."@ + h implies spec_map_db_hint(path, args)
        == Some(SpecDbHint::Custom { type_expr: h }) by {
        assert(path.subrange(3, path.len() as int) =~= h);
        assert("db."@.is_prefix_of(path));
    }
}

// ── Attribute values as JSON ─────────────────────────────────────────────

/// What an argument of a call becomes in JSON: `k: v` the one-member object
/// `{k: v}`, a positional argument its value.
pub open spec fn spec_call_arg_json(a: SpecRawArg) -> SpecJson {
    match a {
        SpecRawArg::Named(k, v) => SpecJson::Object(seq![(k, spec_value_json(v))]),
        SpecRawArg::Positional(v) => spec_value_json(v),
    }
}

proof fn lemma_values_json(items: Seq<SpecRawValue>)
    ensures
        spec_values_json(items).len() == items.len(),
        forall|k: int|
            0 <= k < items.len() ==> #[trigger] spec_values_json(items)[k] == spec_value_json(
                items[k],
            ),
    decreases items.len(),
{
    if items.len() > 0 {
        lemma_values_json(items.drop_last());
        assert forall|k: int| 0 <= k < items.len() implies #[trigger] spec_values_json(items)[k]
            == spec_value_json(items[k]) by {
            if k < items.len() - 1 {
                assert(items.drop_last()[k] == items[k]);
            }
        }
    }
}

proof fn lemma_args_json(args: Seq<SpecRawArg>)
    ensures
        spec_args_json(args).len() == args.len(),
        forall|k: int|
            0 <= k < args.len() ==> #[trigger] spec_args_json(args)[k] == spec_call_arg_json(
                args[k],
            ),
    decreases args.len(),
{
    if args.len() > 0 {
        lemma_args_json(args.drop_last());
        assert forall|k: int| 0 <= k < args.len() implies #[trigger] spec_args_json(args)[k]
            == spec_call_arg_json(args[k]) by {
            if k < args.len() - 1 {
                assert(args.drop_last()[k] == args[k]);
            } else {
                assert(args.last() == args[k]);
                assert(spec_arg_json(args[k]) == spec_call_arg_json(args[k]));
            }
        }
    }
}

/// An attribute value keeps its content in JSON: a string or an identifier
/// as a JSON string, an integer or a decimal as a number, a list item by
/// item, and a call `f(args)` as the object with sorted keys `args` (each
/// argument, `k: v` as `{k: v}`) and `fn` (the name). An attribute without
/// arguments is recorded as `true`.
pub proof fn law_value_json(v: SpecRawValue, args: Seq<SpecRawArg>)
    ensures
        v matches SpecRawValue::Str(x) ==> spec_value_json(v) == SpecJson::String(x),
        v matches SpecRawValue::Ident(x) ==> spec_value_json(v) == SpecJson::String(x),
        v matches SpecRawValue::Int(n) ==> spec_value_json(v) == SpecJson::Int(n),
        v matches SpecRawValue::Float(x) ==> spec_value_json(v) == SpecJson::Float(x),
        v matches SpecRawValue::Array(items) ==> (spec_value_json(v) matches SpecJson::Array(js)
            && js.len() == items.len() && forall|k: int|
            0 <= k < items.len() ==> #[trigger] js[k] == spec_value_json(items[k])),
        v matches SpecRawValue::Call(n, cargs) ==> (spec_value_json(v) matches SpecJson::Object(o)
            && o.len() == 2 && keys_sorted(o) && member_value(o, "fn"@) == Some(SpecJson::String(n))
            && (member_value(o, "args"@) matches Some(SpecJson::Array(xs)) && xs.len()
            == cargs.len() && forall|k: int|
            0 <= k < cargs.len() ==> #[trigger] xs[k] == spec_call_arg_json(cargs[k]))),
        args.len() == 0 ==> spec_args_to_json(args) == SpecJson::Bool(true),
{
    match v {
        SpecRawValue::Array(items) => {
            lemma_values_json(items);
        },
        SpecRawValue::Call(n, cargs) => {
            lemma_args_json(cargs);
            reveal_strlit("args");
            reveal_strlit("fn");
            let o = seq![("args"@, SpecJson::Array(spec_args_json(cargs))), ("fn"@, SpecJson::String(n))];
            assert(spec_str_le("args"@, "fn"@));
            assert("args"@ != "fn"@) by {
                assert("args"@[0] != "fn"@[0]);
            }
            assert(keys_sorted(o));
            assert(o.drop_last().last().0 == "args"@);
            assert(member_index(o, "fn"@) == Some(1int));
            assert(member_index(o.drop_last(), "args"@) == Some(0int));
            assert(member_index(o, "args"@) == Some(0int));
        },
        _ => {},
    }
}

// ── Views ────────────────────────────────────────────────────────────────

/// A view keeps its name, takes its database name from its first `@@map` and
/// its database schema from its first `@@schema` (the string given to each,
/// none without one), has no definition, is not updatable, is marked as coming
/// from Prisma, and has one column per field, in order, each named as the
/// field and with the database name given to the field's first `@map`. A view
/// marked `@@ignore` records that first among its unknown features, as
/// `prisma.ignore` with the value `true`; every other block attribute but
/// `@@map` and `@@schema` is recorded there as the recoverable feature
/// `prisma.<name>` with its arguments. Fields marked `@ignore` are listed,
/// in order, under the recoverable feature `prisma.ignoredFields`.
pub proof fn law_view_naming(m: SpecRawModel)
    ensures
        ({
            let v = spec_view_of(m);
            &&& v.name == m.name
            &&& v.db_name == match spec_find_attr(m.block_attrs, "map"@) {
                Some(a) => spec_first_positional_str(a.args),
                None => None,
            }
            &&& v.db_schema == match spec_find_attr(m.block_attrs, "schema"@) {
                Some(a) => spec_first_positional_str(a.args),
                None => None,
            }
            &&& v.definition.len() == 0
            &&& !v.updatable
            &&& v.metadata.source_orm == Some(SpecOrmKind::Prisma)
            &&& v.columns.len() == m.fields.len()
            &&& forall|k: int|
                0 <= k < m.fields.len() ==> (#[trigger] v.columns[k]).name == m.fields[k].name
                    && v.columns[k].db_name == match spec_find_attr(m.fields[k].attrs, "map"@) {
                    Some(a) => spec_first_positional_str(a.args),
                    None => None,
                }
            &&& spec_find_attr(m.block_attrs, "ignore"@) is Some ==> v.metadata.unknown_features.len()
                > 0 && v.metadata.unknown_features[0] == (SpecUnknownFeature {
                name: "prisma.ignore"@,
                value: SpecJson::Bool(true),
                recoverable: true,
            })
            &&& forall|i: int|
                0 <= i < m.block_attrs.len() && (#[trigger] m.block_attrs[i]).path != "map"@
                    && m.block_attrs[i].path != "schema"@ && m.block_attrs[i].path != "ignore"@
                    ==> v.metadata.unknown_features.contains(
                    SpecUnknownFeature {
                        name: "prisma."@ + m.block_attrs[i].path,
                        value: spec_args_to_json(m.block_attrs[i].args),
                        recoverable: true,
                    },
                )
            &&& ({
                let names = spec_ignored_column_names(m.fields, Seq::empty());
                names.len() > 0 ==> v.metadata.unknown_features.contains(
                    SpecUnknownFeature {
                        name: "prisma.ignoredFields"@,
                        value: SpecJson::Array(names.map_values(|n: Seq<char>| SpecJson::String(n))),
                        recoverable: true,
                    },
                )
            })
        }),
{
    let v = spec_view_of(m);
    let ba = m.block_attrs;
    lemma_view_ignored_names(m.fields);
    let ign = spec_ignored_names(m.fields);
    if ign.len() > 0 {
        let feats = v.metadata.unknown_features;
        let pre: Seq<SpecUnknownFeature> = if spec_find_attr(ba, "ignore"@) is Some {
            seq![super::scalar_table::spec_ignore_feature()]
        } else {
            Seq::empty()
        };
        assert(feats[pre.len() as int] == super::scalar_table::spec_ignored_fields_feature(ign));
    }
    assert forall|i: int|
        0 <= i < ba.len() && (#[trigger] ba[i]).path != "map"@ && ba[i].path != "schema"@
            && ba[i].path != "ignore"@ implies v.metadata.unknown_features.contains(
        spec_block_feature(ba[i]),
    ) by {
        lemma_view_features_contain(ba, i);
        let feats = v.metadata.unknown_features;
        let blocks = spec_unknown_block_features(ba, true);
        let pre = feats.len() - blocks.len();
        assert(feats.subrange(pre, feats.len() as int) =~= blocks);
        let k = choose|k: int| 0 <= k < blocks.len() && blocks[k] == spec_block_feature(ba[i]);
        assert(feats[pre + k] == blocks[k]);
    }
}

proof fn lemma_view_ignored_names(fields: Seq<SpecRawField>)
    ensures
        spec_ignored_names(fields) == spec_ignored_column_names(fields, Seq::empty()),
    decreases fields.len(),
{
    if fields.len() > 0 {
        lemma_view_ignored_names(fields.drop_last());
        assert(!spec_has_model(Seq::<SpecRawModel>::empty(), fields.last().base_type));
    }
}

proof fn lemma_view_features_contain(attrs: Seq<SpecRawAttr>, i: int)
    requires
        0 <= i < attrs.len(),
        attrs[i].path != "map"@ && attrs[i].path != "schema"@ && attrs[i].path != "ignore"@,
    ensures
        spec_unknown_block_features(attrs, true).contains(spec_block_feature(attrs[i])),
    decreases attrs.len(),
{
    let r = spec_unknown_block_features(attrs, true);
    let x = spec_block_feature(attrs[i]);
    if i == attrs.len() - 1 {
        assert(r[r.len() - 1] == x);
    } else {
        assert(attrs.drop_last()[i] == attrs[i]);
        lemma_view_features_contain(attrs.drop_last(), i);
        let prev = spec_unknown_block_features(attrs.drop_last(), true);
        let k = choose|k: int| 0 <= k < prev.len() && prev[k] == x;
        assert(r[k] == x);
    }
}

// ── Index columns ────────────────────────────────────────────────────────

/// Whether argument `a` is a `sort: <identifier>` argument.
pub open spec fn spec_is_sort_arg(a: SpecRawArg) -> bool {
    a matches SpecRawArg::Named(k, SpecRawValue::Ident(_)) && k == "sort"@
}

/// Whether the first `sort: <identifier>` argument among `args` is `sort: Desc`.
pub open spec fn spec_first_sort_is_desc(args: Seq<SpecRawArg>) -> bool {
    exists|p: int|
        0 <= p < args.len() && args[p] == SpecRawArg::Named("sort"@, SpecRawValue::Ident("Desc"@))
            && forall|q: int| 0 <= q < p ==> !spec_is_sort_arg(#[trigger] args[q])
}

proof fn lemma_sort_of(args: Seq<SpecRawArg>)
    ensures
        (spec_sort_of(args) == SortDirection::Desc) <==> spec_first_sort_is_desc(args),
    decreases args.len(),
{
    if args.len() > 0 {
        let rest = args.drop_first();
        lemma_sort_of(rest);
        if spec_is_sort_arg(args[0]) {
            if spec_first_sort_is_desc(args) {
                let p = choose|p: int|
                    0 <= p < args.len() && args[p] == SpecRawArg::Named(
                        "sort"@,
                        SpecRawValue::Ident("Desc"@),
                    ) && forall|q: int| 0 <= q < p ==> !spec_is_sort_arg(#[trigger] args[q]);
                if p > 0 {
                    assert(!spec_is_sort_arg(args[0]));
                }
            }
            if spec_sort_of(args) == SortDirection::Desc {
                assert(args[0] == SpecRawArg::Named("sort"@, SpecRawValue::Ident("Desc"@)));
            }
        } else {
            if spec_first_sort_is_desc(args) {
                let p = choose|p: int|
                    0 <= p < args.len() && args[p] == SpecRawArg::Named(
                        "sort"@,
                        SpecRawValue::Ident("Desc"@),
                    ) && forall|q: int| 0 <= q < p ==> !spec_is_sort_arg(#[trigger] args[q]);
                if p == 0 {
                    reveal_strlit("sort");
                    assert(spec_is_sort_arg(args[0]));
                }
                assert(rest[p - 1] == args[p]);
                assert forall|q: int| 0 <= q < p - 1 implies !spec_is_sort_arg(#[trigger] rest[q]) by {
                    assert(rest[q] == args[q + 1]);
                }
            }
            if spec_first_sort_is_desc(rest) {
                let p = choose|p: int|
                    0 <= p < rest.len() && rest[p] == SpecRawArg::Named(
                        "sort"@,
                        SpecRawValue::Ident("Desc"@),
                    ) && forall|q: int| 0 <= q < p ==> !spec_is_sort_arg(#[trigger] rest[q]);
                assert(args[p + 1] == rest[p]);
                assert forall|q: int| 0 <= q < p + 1 implies !spec_is_sort_arg(#[trigger] args[q]) by {
                    if q > 0 {
                        assert(args[q] == rest[q - 1]);
                    }
                }
            }
        }
    }
}

/// The columns of an index list: one per item, in order (a single column for
/// a value that is no list). An identifier names an ascending column; a call
/// `name(..)` names the column `name`, descending exactly when its first
/// `sort:` argument is `sort: Desc`. No column states a nulls position.
pub proof fn law_index_columns(v: SpecRawValue)
    ensures
        v matches SpecRawValue::Ident(n) ==> spec_index_columns(v) == seq![
            SpecIndexColumn { column: n, sort: SortDirection::Asc, nulls: None },
        ],
        v matches SpecRawValue::Array(items) ==> {
            let cs = spec_index_columns(v);
            &&& cs.len() == items.len()
            &&& forall|k: int|
                0 <= k < items.len() ==> {
                    &&& (#[trigger] cs[k]).nulls is None
                    &&& items[k] matches SpecRawValue::Ident(n) ==> cs[k].column == n && cs[k].sort
                        == SortDirection::Asc
                    &&& items[k] matches SpecRawValue::Call(n, args) ==> cs[k].column == n && ((
                    cs[k].sort == SortDirection::Desc) <==> spec_first_sort_is_desc(args))
                }
        },
{
    if let SpecRawValue::Array(items) = v {
        let cs = spec_index_columns(v);
        assert forall|k: int| 0 <= k < items.len() implies {
            &&& (#[trigger] cs[k]).nulls is None
            &&& items[k] matches SpecRawValue::Ident(n) ==> cs[k].column == n && cs[k].sort
                == SortDirection::Asc
            &&& items[k] matches SpecRawValue::Call(n, args) ==> cs[k].column == n && ((cs[k].sort
                == SortDirection::Desc) <==> spec_first_sort_is_desc(args))
        } by {
            if let SpecRawValue::Call(n, args) = items[k] {
                lemma_sort_of(args);
            }
        }
    }
}

// ── Referential actions ───────────────────────────────────────────────────

/// Each Prisma referential action names its own IR action, and no other name
/// gives that action.
pub proof fn law_referential_action_names(s: Seq<char>)
    ensures
        (spec_parse_referential_action(s) == Some(ReferentialAction::Cascade)) <==> s
            == "Cascade"@,
        (spec_parse_referential_action(s) == Some(ReferentialAction::Restrict)) <==> s
            == "Restrict"@,
        (spec_parse_referential_action(s) == Some(ReferentialAction::SetNull)) <==> s
            == "SetNull"@,
        (spec_parse_referential_action(s) == Some(ReferentialAction::SetDefault)) <==> s
            == "SetDefault"@,
        (spec_parse_referential_action(s) == Some(ReferentialAction::NoAction)) <==> s
            == "NoAction"@,
{
    reveal_strlit("Cascade");
    reveal_strlit("Restrict");
    reveal_strlit("SetNull");
    reveal_strlit("SetDefault");
    reveal_strlit("NoAction");
    let names = seq!["Cascade"@, "Restrict"@, "SetNull"@, "SetDefault"@, "NoAction"@];
    assert forall|i: int, j: int| 0 <= i < j < names.len() implies names[i] != names[j] by {
        if names[i].len() == names[j].len() {
            assert(names[i][0] != names[j][0] || names[i][3] != names[j][3]);
        }
    }
}

// ── Database type hints ────────────────────────────────────────────────────

/// Each `@db.<Name>` hint selects the IR hint of the same name: the plain
/// ones whatever their arguments; the length ones with their first integer
/// argument as length (no hint without one); the time ones with their first
/// integer argument as precision (0 without one); `Bit`/`VarBit` with an
/// optional length.
#[verifier::rlimit(80)]
pub proof fn law_db_hint_names(h: Seq<char>, args: Seq<SpecRawArg>)
    ensures
        h == "Text"@ ==> spec_map_db_hint("db."@ + h, args) == Some(SpecDbHint::Text),
        h == "TinyText"@ ==> spec_map_db_hint("db."@ + h, args) == Some(SpecDbHint::TinyText),
        h == "MediumText"@ ==> spec_map_db_hint("db."@ + h, args) == Some(SpecDbHint::MediumText),
        h == "LongText"@ ==> spec_map_db_hint("db."@ + h, args) == Some(SpecDbHint::LongText),
        h == "SmallInt"@ ==> spec_map_db_hint("db."@ + h, args) == Some(SpecDbHint::SmallInt),
        h == "BigInt"@ ==> spec_map_db_hint("db."@ + h, args) == Some(SpecDbHint::BigInt),
        h == "TinyInt"@ ==> spec_map_db_hint("db."@ + h, args) == Some(SpecDbHint::TinyInt),
        h == "MediumInt"@ ==> spec_map_db_hint("db."@ + h, args) == Some(SpecDbHint::MediumInt),
        h == "Year"@ ==> spec_map_db_hint("db."@ + h, args) == Some(SpecDbHint::Year),
        h == "Float"@ ==> spec_map_db_hint("db."@ + h, args) == Some(SpecDbHint::Float),
        h == "DoublePrecision"@ ==> spec_map_db_hint("db."@ + h, args) == Some(SpecDbHint::DoublePrecision),
        h == "Real"@ ==> spec_map_db_hint("db."@ + h, args) == Some(SpecDbHint::Real),
        h == "TinyBlob"@ ==> spec_map_db_hint("db."@ + h, args) == Some(SpecDbHint::TinyBlob),
        h == "Blob"@ ==> spec_map_db_hint("db."@ + h, args) == Some(SpecDbHint::Blob),
        h == "MediumBlob"@ ==> spec_map_db_hint("db."@ + h, args) == Some(SpecDbHint::MediumBlob),
        h == "LongBlob"@ ==> spec_map_db_hint("db."@ + h, args) == Some(SpecDbHint::LongBlob),
        h == "ByteA"@ ==> spec_map_db_hint("db."@ + h, args) == Some(SpecDbHint::ByteA),
        h == "Date"@ ==> spec_map_db_hint("db."@ + h, args) == Some(SpecDbHint::Date),
        h == "Timestamptz"@ ==> spec_map_db_hint("db."@ + h, args) == Some(SpecDbHint::Timestamptz),
        h == "Timetz"@ ==> spec_map_db_hint("db."@ + h, args) == Some(SpecDbHint::Timetz),
        h == "Interval"@ ==> spec_map_db_hint("db."@ + h, args) == Some(SpecDbHint::Interval),
        h == "Uuid"@ ==> spec_map_db_hint("db."@ + h, args) == Some(SpecDbHint::Uuid),
        h == "Inet"@ ==> spec_map_db_hint("db."@ + h, args) == Some(SpecDbHint::Inet),
        h == "Cidr"@ ==> spec_map_db_hint("db."@ + h, args) == Some(SpecDbHint::Cidr),
        h == "Xml"@ ==> spec_map_db_hint("db."@ + h, args) == Some(SpecDbHint::Xml),
        h == "Money"@ ==> spec_map_db_hint("db."@ + h, args) == Some(SpecDbHint::Money),
        h == "Oid"@ ==> spec_map_db_hint("db."@ + h, args) == Some(SpecDbHint::Oid),
        h == "Int"@ || h == "Integer"@ ==> spec_map_db_hint("db."@ + h, args) == Some(SpecDbHint::Int),
        h == "VarChar"@ ==> spec_map_db_hint("db."@ + h, args) == match spec_first_int(args) {
            Some(n) => Some(SpecDbHint::VarChar { length: n as u32 }),
            None => None,
        },
        h == "Char"@ ==> spec_map_db_hint("db."@ + h, args) == match spec_first_int(args) {
            Some(n) => Some(SpecDbHint::Char { length: n as u32 }),
            None => None,
        },
        h == "VarBinary"@ ==> spec_map_db_hint("db."@ + h, args) == match spec_first_int(args) {
            Some(n) => Some(SpecDbHint::VarBinary { length: n as u32 }),
            None => None,
        },
        h == "Binary"@ ==> spec_map_db_hint("db."@ + h, args) == match spec_first_int(args) {
            Some(n) => Some(SpecDbHint::Binary { length: n as u32 }),
            None => None,
        },
        h == "Time"@ ==> spec_map_db_hint("db."@ + h, args) == Some(
            SpecDbHint::Time {
                precision: match spec_first_int(args) {
                    Some(n) => n as u8,
                    None => 0u8,
                },
            },
        ),
        h == "DateTime"@ ==> spec_map_db_hint("db."@ + h, args) == Some(
            SpecDbHint::DateTime {
                precision: match spec_first_int(args) {
                    Some(n) => n as u8,
                    None => 0u8,
                },
            },
        ),
        h == "Timestamp"@ ==> spec_map_db_hint("db."@ + h, args) == Some(
            SpecDbHint::Timestamp {
                precision: match spec_first_int(args) {
                    Some(n) => n as u8,
                    None => 0u8,
                },
            },
        ),
        h == "Bit"@ || h == "VarBit"@ ==> spec_map_db_hint("db."@ + h, args) == Some(
            SpecDbHint::Bit {
                length: match spec_first_int(args) {
                    Some(n) => Some(n as u32),
                    None => None,
                },
            },
        ),
{
    reveal_strlit("db.");
    let p = "db."@ + h;
    assert(p.subrange(3, p.len() as int) =~= h);
    assert("db."@.is_prefix_of(p));
    reveal_strlit("VarChar");
    reveal_strlit("Char");
    reveal_strlit("Text");
    reveal_strlit("TinyText");
    reveal_strlit("MediumText");
    reveal_strlit("LongText");
    reveal_strlit("SmallInt");
    reveal_strlit("Int");
    reveal_strlit("Integer");
    reveal_strlit("BigInt");
    reveal_strlit("TinyInt");
    reveal_strlit("MediumInt");
    reveal_strlit("Year");
    reveal_strlit("Float");
    reveal_strlit("DoublePrecision");
    reveal_strlit("Real");
    reveal_strlit("Decimal");
    reveal_strlit("Numeric");
    reveal_strlit("VarBinary");
    reveal_strlit("Binary");
    reveal_strlit("TinyBlob");
    reveal_strlit("Blob");
    reveal_strlit("MediumBlob");
    reveal_strlit("LongBlob");
    reveal_strlit("ByteA");
    reveal_strlit("Bit");
    reveal_strlit("VarBit");
    reveal_strlit("Date");
    reveal_strlit("Time");
    reveal_strlit("DateTime");
    reveal_strlit("Timestamp");
    reveal_strlit("Timestamptz");
    reveal_strlit("Timetz");
    reveal_strlit("Interval");
    reveal_strlit("Uuid");
    reveal_strlit("Inet");
    reveal_strlit("Cidr");
    reveal_strlit("Xml");
    reveal_strlit("Money");
    reveal_strlit("Oid");
    assert("VarChar"@[0] != "Integer"@[0]);
    assert("VarChar"@[0] != "TinyInt"@[0]);
    assert("VarChar"@[0] != "Decimal"@[0]);
    assert("VarChar"@[0] != "Numeric"@[0]);
    assert("Char"@[0] != "Text"@[0]);
    assert("Char"@[0] != "Year"@[0]);
    assert("Char"@[0] != "Real"@[0]);
    assert("Char"@[0] != "Blob"@[0]);
    assert("Char"@[0] != "Date"@[0]);
    assert("Char"@[0] != "Time"@[0]);
    assert("Char"@[0] != "Uuid"@[0]);
    assert("Char"@[0] != "Inet"@[0]);
    assert("Char"@[1] != "Cidr"@[1]);
    assert("Text"@[0] != "Year"@[0]);
    assert("Text"@[0] != "Real"@[0]);
    assert("Text"@[0] != "Blob"@[0]);
    assert("Text"@[0] != "Date"@[0]);
    assert("Text"@[1] != "Time"@[1]);
    assert("Text"@[0] != "Uuid"@[0]);
    assert("Text"@[0] != "Inet"@[0]);
    assert("Text"@[0] != "Cidr"@[0]);
    assert("TinyText"@[0] != "LongText"@[0]);
    assert("TinyText"@[0] != "SmallInt"@[0]);
    assert("TinyText"@[4] != "TinyBlob"@[4]);
    assert("TinyText"@[0] != "LongBlob"@[0]);
    assert("TinyText"@[0] != "DateTime"@[0]);
    assert("TinyText"@[0] != "Interval"@[0]);
    assert("MediumText"@[6] != "MediumBlob"@[6]);
    assert("LongText"@[0] != "SmallInt"@[0]);
    assert("LongText"@[0] != "TinyBlob"@[0]);
    assert("LongText"@[4] != "LongBlob"@[4]);
    assert("LongText"@[0] != "DateTime"@[0]);
    assert("LongText"@[0] != "Interval"@[0]);
    assert("SmallInt"@[0] != "TinyBlob"@[0]);
    assert("SmallInt"@[0] != "LongBlob"@[0]);
    assert("SmallInt"@[0] != "DateTime"@[0]);
    assert("SmallInt"@[0] != "Interval"@[0]);
    assert("Int"@[0] != "Bit"@[0]);
    assert("Int"@[0] != "Xml"@[0]);
    assert("Int"@[0] != "Oid"@[0]);
    assert("Integer"@[0] != "TinyInt"@[0]);
    assert("Integer"@[0] != "Decimal"@[0]);
    assert("Integer"@[0] != "Numeric"@[0]);
    assert("BigInt"@[2] != "Binary"@[2]);
    assert("BigInt"@[0] != "VarBit"@[0]);
    assert("BigInt"@[0] != "Timetz"@[0]);
    assert("TinyInt"@[0] != "Decimal"@[0]);
    assert("TinyInt"@[0] != "Numeric"@[0]);
    assert("MediumInt"@[0] != "VarBinary"@[0]);
    assert("MediumInt"@[0] != "Timestamp"@[0]);
    assert("Year"@[0] != "Real"@[0]);
    assert("Year"@[0] != "Blob"@[0]);
    assert("Year"@[0] != "Date"@[0]);
    assert("Year"@[0] != "Time"@[0]);
    assert("Year"@[0] != "Uuid"@[0]);
    assert("Year"@[0] != "Inet"@[0]);
    assert("Year"@[0] != "Cidr"@[0]);
    assert("Float"@[0] != "ByteA"@[0]);
    assert("Float"@[0] != "Money"@[0]);
    assert("Real"@[0] != "Blob"@[0]);
    assert("Real"@[0] != "Date"@[0]);
    assert("Real"@[0] != "Time"@[0]);
    assert("Real"@[0] != "Uuid"@[0]);
    assert("Real"@[0] != "Inet"@[0]);
    assert("Real"@[0] != "Cidr"@[0]);
    assert("Decimal"@[0] != "Numeric"@[0]);
    assert("VarBinary"@[0] != "Timestamp"@[0]);
    assert("Binary"@[0] != "VarBit"@[0]);
    assert("Binary"@[0] != "Timetz"@[0]);
    assert("TinyBlob"@[0] != "LongBlob"@[0]);
    assert("TinyBlob"@[0] != "DateTime"@[0]);
    assert("TinyBlob"@[0] != "Interval"@[0]);
    assert("Blob"@[0] != "Date"@[0]);
    assert("Blob"@[0] != "Time"@[0]);
    assert("Blob"@[0] != "Uuid"@[0]);
    assert("Blob"@[0] != "Inet"@[0]);
    assert("Blob"@[0] != "Cidr"@[0]);
    assert("LongBlob"@[0] != "DateTime"@[0]);
    assert("LongBlob"@[0] != "Interval"@[0]);
    assert("ByteA"@[0] != "Money"@[0]);
    assert("Bit"@[0] != "Xml"@[0]);
    assert("Bit"@[0] != "Oid"@[0]);
    assert("VarBit"@[0] != "Timetz"@[0]);
    assert("Date"@[0] != "Time"@[0]);
    assert("Date"@[0] != "Uuid"@[0]);
    assert("Date"@[0] != "Inet"@[0]);
    assert("Date"@[0] != "Cidr"@[0]);
    assert("Time"@[0] != "Uuid"@[0]);
    assert("Time"@[0] != "Inet"@[0]);
    assert("Time"@[0] != "Cidr"@[0]);
    assert("DateTime"@[0] != "Interval"@[0]);
    assert("Uuid"@[0] != "Inet"@[0]);
    assert("Uuid"@[0] != "Cidr"@[0]);
    assert("Inet"@[0] != "Cidr"@[0]);
    assert("Xml"@[0] != "Oid"@[0]);
}

// ── Scalar types ───────────────────────────────────────────────────────────

/// Each Prisma scalar type name maps to its IR type (`Float` is 64-bit,
/// `Decimal` is Prisma's default 65/30, `DateTime` has millisecond precision
/// and no time zone); no other name is a scalar type.
pub proof fn law_scalar_type_names(t: Seq<char>)
    ensures
        t == "String"@ ==> spec_map_scalar_type(t) == Some(SpecScalarType::String),
        t == "Int"@ ==> spec_map_scalar_type(t) == Some(SpecScalarType::Int),
        t == "BigInt"@ ==> spec_map_scalar_type(t) == Some(SpecScalarType::BigInt),
        t == "Float"@ ==> spec_map_scalar_type(t) == Some(SpecScalarType::Double),
        t == "Decimal"@ ==> spec_map_scalar_type(t) == Some(SpecScalarType::Decimal { precision: 65, scale: 30 }),
        t == "Boolean"@ ==> spec_map_scalar_type(t) == Some(SpecScalarType::Boolean),
        t == "DateTime"@ ==> spec_map_scalar_type(t) == Some(SpecScalarType::Timestamp { precision: 3, with_timezone: false }),
        t == "Json"@ ==> spec_map_scalar_type(t) == Some(SpecScalarType::Json),
        t == "Bytes"@ ==> spec_map_scalar_type(t) == Some(SpecScalarType::Bytes),
        t != "String"@ && t != "Int"@ && t != "BigInt"@ && t != "Float"@ && t != "Decimal"@ && t != "Boolean"@ && t != "DateTime"@ && t != "Json"@ && t != "Bytes"@ ==> spec_map_scalar_type(t) is None,
{
    reveal_strlit("String");
    reveal_strlit("Int");
    reveal_strlit("BigInt");
    reveal_strlit("Float");
    reveal_strlit("Decimal");
    reveal_strlit("Boolean");
    reveal_strlit("DateTime");
    reveal_strlit("Json");
    reveal_strlit("Bytes");
    assert("String"@ != "Int"@) by {
        assert("String"@.len() != "Int"@.len());
    }
    assert("String"@ != "BigInt"@) by {
        assert("String"@[0] != "BigInt"@[0]);
    }
    assert("String"@ != "Float"@) by {
        assert("String"@.len() != "Float"@.len());
    }
    assert("String"@ != "Decimal"@) by {
        assert("String"@.len() != "Decimal"@.len());
    }
    assert("String"@ != "Boolean"@) by {
        assert("String"@.len() != "Boolean"@.len());
    }
    assert("String"@ != "DateTime"@) by {
        assert("String"@.len() != "DateTime"@.len());
    }
    assert("String"@ != "Json"@) by {
        assert("String"@.len() != "Json"@.len());
    }
    assert("String"@ != "Bytes"@) by {
        assert("String"@.len() != "Bytes"@.len());
    }
    assert("Int"@ != "BigInt"@) by {
        assert("Int"@.len() != "BigInt"@.len());
    }
    assert("Int"@ != "Float"@) by {
        assert("Int"@.len() != "Float"@.len());
    }
    assert("Int"@ != "Decimal"@) by {
        assert("Int"@.len() != "Decimal"@.len());
    }
    assert("Int"@ != "Boolean"@) by {
        assert("Int"@.len() != "Boolean"@.len());
    }
    assert("Int"@ != "DateTime"@) by {
        assert("Int"@.len() != "DateTime"@.len());
    }
    assert("Int"@ != "Json"@) by {
        assert("Int"@.len() != "Json"@.len());
    }
    assert("Int"@ != "Bytes"@) by {
        assert("Int"@.len() != "Bytes"@.len());
    }
    assert("BigInt"@ != "Float"@) by {
        assert("BigInt"@.len() != "Float"@.len());
    }
    assert("BigInt"@ != "Decimal"@) by {
        assert("BigInt"@.len() != "Decimal"@.len());
    }
    assert("BigInt"@ != "Boolean"@) by {
        assert("BigInt"@.len() != "Boolean"@.len());
    }
    assert("BigInt"@ != "DateTime"@) by {
        assert("BigInt"@.len() != "DateTime"@.len());
    }
    assert("BigInt"@ != "Json"@) by {
        assert("BigInt"@.len() != "Json"@.len());
    }
    assert("BigInt"@ != "Bytes"@) by {
        assert("BigInt"@.len() != "Bytes"@.len());
    }
    assert("Float"@ != "Decimal"@) by {
        assert("Float"@.len() != "Decimal"@.len());
    }
    assert("Float"@ != "Boolean"@) by {
        assert("Float"@.len() != "Boolean"@.len());
    }
    assert("Float"@ != "DateTime"@) by {
        assert("Float"@.len() != "DateTime"@.len());
    }
    assert("Float"@ != "Json"@) by {
        assert("Float"@.len() != "Json"@.len());
    }
    assert("Float"@ != "Bytes"@) by {
        assert("Float"@[0] != "Bytes"@[0]);
    }
    assert("Decimal"@ != "Boolean"@) by {
        assert("Decimal"@[0] != "Boolean"@[0]);
    }
    assert("Decimal"@ != "DateTime"@) by {
        assert("Decimal"@.len() != "DateTime"@.len());
    }
    assert("Decimal"@ != "Json"@) by {
        assert("Decimal"@.len() != "Json"@.len());
    }
    assert("Decimal"@ != "Bytes"@) by {
        assert("Decimal"@.len() != "Bytes"@.len());
    }
    assert("Boolean"@ != "DateTime"@) by {
        assert("Boolean"@.len() != "DateTime"@.len());
    }
    assert("Boolean"@ != "Json"@) by {
        assert("Boolean"@.len() != "Json"@.len());
    }
    assert("Boolean"@ != "Bytes"@) by {
        assert("Boolean"@.len() != "Bytes"@.len());
    }
    assert("DateTime"@ != "Json"@) by {
        assert("DateTime"@.len() != "Json"@.len());
    }
    assert("DateTime"@ != "Bytes"@) by {
        assert("DateTime"@.len() != "Bytes"@.len());
    }
    assert("Json"@ != "Bytes"@) by {
        assert("Json"@.len() != "Bytes"@.len());
    }
}

// ── Index types ────────────────────────────────────────────────────────────

/// Each index access method name maps to its IR method (`BTree` also spelled
/// `Btree`); any other name is kept as a custom method of that name.
pub proof fn law_index_type_names(s: Seq<char>)
    ensures
        s == "BTree"@ ==> spec_map_index_type(s) == SpecIndexType::BTree,
        s == "Btree"@ ==> spec_map_index_type(s) == SpecIndexType::BTree,
        s == "Hash"@ ==> spec_map_index_type(s) == SpecIndexType::Hash,
        s == "Gin"@ ==> spec_map_index_type(s) == SpecIndexType::Gin,
        s == "Gist"@ ==> spec_map_index_type(s) == SpecIndexType::Gist,
        s == "Brin"@ ==> spec_map_index_type(s) == SpecIndexType::Brin,
        s == "SpGist"@ ==> spec_map_index_type(s) == SpecIndexType::SpGist,
        s != "BTree"@ && s != "Btree"@ && s != "Hash"@ && s != "Gin"@ && s != "Gist"@ && s != "Brin"@ && s != "SpGist"@ ==> spec_map_index_type(s) == (SpecIndexType::Custom { name: s }),
{
    reveal_strlit("BTree");
    reveal_strlit("Btree");
    reveal_strlit("Hash");
    reveal_strlit("Gin");
    reveal_strlit("Gist");
    reveal_strlit("Brin");
    reveal_strlit("SpGist");
    assert("BTree"@ != "Btree"@) by {
        assert("BTree"@[1] != "Btree"@[1]);
    }
    assert("BTree"@ != "Hash"@) by {
        assert("BTree"@.len() != "Hash"@.len());
    }
    assert("BTree"@ != "Gin"@) by {
        assert("BTree"@.len() != "Gin"@.len());
    }
    assert("BTree"@ != "Gist"@) by {
        assert("BTree"@.len() != "Gist"@.len());
    }
    assert("BTree"@ != "Brin"@) by {
        assert("BTree"@.len() != "Brin"@.len());
    }
    assert("BTree"@ != "SpGist"@) by {
        assert("BTree"@.len() != "SpGist"@.len());
    }
    assert("Btree"@ != "Hash"@) by {
        assert("Btree"@.len() != "Hash"@.len());
    }
    assert("Btree"@ != "Gin"@) by {
        assert("Btree"@.len() != "Gin"@.len());
    }
    assert("Btree"@ != "Gist"@) by {
        assert("Btree"@.len() != "Gist"@.len());
    }
    assert("Btree"@ != "Brin"@) by {
        assert("Btree"@.len() != "Brin"@.len());
    }
    assert("Btree"@ != "SpGist"@) by {
        assert("Btree"@.len() != "SpGist"@.len());
    }
    assert("Hash"@ != "Gin"@) by {
        assert("Hash"@.len() != "Gin"@.len());
    }
    assert("Hash"@ != "Gist"@) by {
        assert("Hash"@[0] != "Gist"@[0]);
    }
    assert("Hash"@ != "Brin"@) by {
        assert("Hash"@[0] != "Brin"@[0]);
    }
    assert("Hash"@ != "SpGist"@) by {
        assert("Hash"@.len() != "SpGist"@.len());
    }
    assert("Gin"@ != "Gist"@) by {
        assert("Gin"@.len() != "Gist"@.len());
    }
    assert("Gin"@ != "Brin"@) by {
        assert("Gin"@.len() != "Brin"@.len());
    }
    assert("Gin"@ != "SpGist"@) by {
        assert("Gin"@.len() != "SpGist"@.len());
    }
    assert("Gist"@ != "Brin"@) by {
        assert("Gist"@[0] != "Brin"@[0]);
    }
    assert("Gist"@ != "SpGist"@) by {
        assert("Gist"@.len() != "SpGist"@.len());
    }
    assert("Brin"@ != "SpGist"@) by {
        assert("Brin"@.len() != "SpGist"@.len());
    }
}

// ── Datasource providers ───────────────────────────────────────────────────

/// Each datasource provider name selects its database; any other provider is
/// kept as a custom database of that name.
pub proof fn law_provider_names(p: Seq<char>)
    ensures
        p == "postgresql"@ ==> spec_map_provider(p) == SpecDatabaseKind::PostgreSql,
        p == "postgres"@ ==> spec_map_provider(p) == SpecDatabaseKind::PostgreSql,
        p == "mysql"@ ==> spec_map_provider(p) == SpecDatabaseKind::MySql,
        p == "sqlite"@ ==> spec_map_provider(p) == SpecDatabaseKind::Sqlite,
        p == "sqlserver"@ ==> spec_map_provider(p) == SpecDatabaseKind::MsSql,
        p == "cockroachdb"@ ==> spec_map_provider(p) == SpecDatabaseKind::CockroachDb,
        p != "postgresql"@ && p != "postgres"@ && p != "mysql"@ && p != "sqlite"@ && p != "sqlserver"@ && p != "cockroachdb"@ ==> spec_map_provider(p) == SpecDatabaseKind::Custom(p),
{
    reveal_strlit("postgresql");
    reveal_strlit("postgres");
    reveal_strlit("mysql");
    reveal_strlit("sqlite");
    reveal_strlit("sqlserver");
    reveal_strlit("cockroachdb");

    assert("postgresql"@ != "postgres"@) by {
        assert("postgresql"@.len() != "postgres"@.len());
    }
    assert("postgresql"@ != "mysql"@) by {
        assert("postgresql"@.len() != "mysql"@.len());
    }
    assert("postgresql"@ != "sqlite"@) by {
        assert("postgresql"@.len() != "sqlite"@.len());
    }
    assert("postgresql"@ != "sqlserver"@) by {
        assert("postgresql"@.len() != "sqlserver"@.len());
    }
    assert("postgresql"@ != "cockroachdb"@) by {
        assert("postgresql"@.len() != "cockroachdb"@.len());
    }
    assert("postgres"@ != "mysql"@) by {
        assert("postgres"@.len() != "mysql"@.len());
    }
    assert("postgres"@ != "sqlite"@) by {
        assert("postgres"@.len() != "sqlite"@.len());
    }
    assert("postgres"@ != "sqlserver"@) by {
        assert("postgres"@.len() != "sqlserver"@.len());
    }
    assert("postgres"@ != "cockroachdb"@) by {
        assert("postgres"@.len() != "cockroachdb"@.len());
    }
    assert("mysql"@ != "sqlite"@) by {
        assert("mysql"@.len() != "sqlite"@.len());
    }
    assert("mysql"@ != "sqlserver"@) by {
        assert("mysql"@.len() != "sqlserver"@.len());
    }
    assert("mysql"@ != "cockroachdb"@) by {
        assert("mysql"@.len() != "cockroachdb"@.len());
    }
    assert("sqlite"@ != "sqlserver"@) by {
        assert("sqlite"@.len() != "sqlserver"@.len());
    }
    assert("sqlite"@ != "cockroachdb"@) by {
        assert("sqlite"@.len() != "cockroachdb"@.len());
    }
    assert("sqlserver"@ != "cockroachdb"@) by {
        assert("sqlserver"@.len() != "cockroachdb"@.len());
    }
}

} // verus!
