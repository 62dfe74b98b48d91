//! Mappings from raw attribute values to pivot IR values.
use vstd::prelude::*;
use super::ast::{
    find_attr, lemma_raw_args_index, lemma_raw_args_len, lemma_raw_values_index,
    lemma_raw_values_len, raw_arg_v, raw_args_v, raw_value_v, raw_values_v, spec_as_string_array,
    spec_find_attr, spec_first_positional, spec_first_positional_str, spec_named, RawArg, RawAttr,
    RawValue, SpecRawArg, SpecRawAttr, SpecRawValue,
};
use crate::json::{
    json_members_v, json_seq_v, json_v, lemma_json_members_push, lemma_json_seq_len,
    lemma_json_seq_push,
    members_insert, object_insert, JsonValue, SpecJson,
};
use crate::pivot::relation::ReferentialAction;
use crate::pivot::table::{IndexColumn, IndexType, SortDirection, SpecIndexColumn, SpecIndexType};
use crate::pivot::types::{
    DbHint, DefaultFn, DefaultValue, LiteralValue, ScalarType, SpecDbHint, SpecDefaultFn,
    SpecDefaultValue, SpecLiteralValue, SpecScalarType,
};
use crate::text::{drop_chars, starts_with, str_eq};

verus! {

// ── Scalar types ───────────────────────────────────────────────────────────

/// The IR scalar type of a Prisma scalar type name; `None` for any other name.
pub open spec fn spec_map_scalar_type(t: Seq<char>) -> Option<SpecScalarType> {
    if t == "String"@ {
        Some(SpecScalarType::String)
    } else if t == "Int"@ {
        Some(SpecScalarType::Int)
    } else if t == "BigInt"@ {
        Some(SpecScalarType::BigInt)
    } else if t == "Float"@ {
        // Prisma Float is 64-bit
        Some(SpecScalarType::Double)
    } else if t == "Decimal"@ {
        Some(SpecScalarType::Decimal { precision: 65, scale: 30 })
    } else if t == "Boolean"@ {
        Some(SpecScalarType::Boolean)
    } else if t == "DateTime"@ {
        Some(SpecScalarType::Timestamp { precision: 3, with_timezone: false })
    } else if t == "Json"@ {
        Some(SpecScalarType::Json)
    } else if t == "Bytes"@ {
        Some(SpecScalarType::Bytes)
    } else {
        None
    }
}

/// Maps a Prisma scalar type name (`String`, `Int`, `BigInt`, `Float`, `Decimal`,
/// `Boolean`, `DateTime`, `Json`, `Bytes`) to its IR scalar type.
pub fn map_scalar_type(prisma_type: &str) -> (r: Option<ScalarType>)
    ensures
        r.deep_view() == spec_map_scalar_type(prisma_type@),
{
    let t = prisma_type;
    if str_eq(t, "String") {
        Some(ScalarType::String)
    } else if str_eq(t, "Int") {
        Some(ScalarType::Int)
    } else if str_eq(t, "BigInt") {
        Some(ScalarType::BigInt)
    } else if str_eq(t, "Float") {
        Some(ScalarType::Double)
    } else if str_eq(t, "Decimal") {
        Some(ScalarType::Decimal { precision: 65, scale: 30 })
    } else if str_eq(t, "Boolean") {
        Some(ScalarType::Boolean)
    } else if str_eq(t, "DateTime") {
        Some(ScalarType::Timestamp { precision: 3, with_timezone: false })
    } else if str_eq(t, "Json") {
        Some(ScalarType::Json)
    } else if str_eq(t, "Bytes") {
        Some(ScalarType::Bytes)
    } else {
        None
    }
}

// ── Index types ────────────────────────────────────────────────────────────

pub open spec fn spec_map_index_type(s: Seq<char>) -> SpecIndexType {
    if s == "BTree"@ || s == "Btree"@ {
        SpecIndexType::BTree
    } else if s == "Hash"@ {
        SpecIndexType::Hash
    } else if s == "Gin"@ {
        SpecIndexType::Gin
    } else if s == "Gist"@ {
        SpecIndexType::Gist
    } else if s == "Brin"@ {
        SpecIndexType::Brin
    } else if s == "SpGist"@ {
        SpecIndexType::SpGist
    } else {
        SpecIndexType::Custom { name: s }
    }
}

/// Maps the `type:` argument of `@@index` to an index access method; an
/// unknown name becomes [`IndexType::Custom`].
pub fn map_index_type(s: &str) -> (r: IndexType)
    ensures
        r.deep_view() == spec_map_index_type(s@),
{
    if str_eq(s, "BTree") || str_eq(s, "Btree") {
        IndexType::BTree
    } else if str_eq(s, "Hash") {
        IndexType::Hash
    } else if str_eq(s, "Gin") {
        IndexType::Gin
    } else if str_eq(s, "Gist") {
        IndexType::Gist
    } else if str_eq(s, "Brin") {
        IndexType::Brin
    } else if str_eq(s, "SpGist") {
        IndexType::SpGist
    } else {
        IndexType::Custom { name: String::from_str(s) }
    }
}

// ── Referential actions ────────────────────────────────────────────────────

pub open spec fn spec_parse_referential_action(s: Seq<char>) -> Option<ReferentialAction> {
    if s == "Cascade"@ {
        Some(ReferentialAction::Cascade)
    } else if s == "Restrict"@ {
        Some(ReferentialAction::Restrict)
    } else if s == "SetNull"@ {
        Some(ReferentialAction::SetNull)
    } else if s == "SetDefault"@ {
        Some(ReferentialAction::SetDefault)
    } else if s == "NoAction"@ {
        Some(ReferentialAction::NoAction)
    } else {
        None
    }
}

/// Maps a Prisma referential action name (`onDelete:` / `onUpdate:`) to the IR.
pub fn parse_referential_action(s: &str) -> (r: Option<ReferentialAction>)
    ensures
        r == spec_parse_referential_action(s@),
{
    if str_eq(s, "Cascade") {
        Some(ReferentialAction::Cascade)
    } else if str_eq(s, "Restrict") {
        Some(ReferentialAction::Restrict)
    } else if str_eq(s, "SetNull") {
        Some(ReferentialAction::SetNull)
    } else if str_eq(s, "SetDefault") {
        Some(ReferentialAction::SetDefault)
    } else if str_eq(s, "NoAction") {
        Some(ReferentialAction::NoAction)
    } else {
        None
    }
}

// ── Database type hints ────────────────────────────────────────────────────

/// The first argument, named or positional, whose value is an integer.
pub open spec fn spec_first_int(args: Seq<SpecRawArg>) -> Option<i64>
    decreases args.len(),
{
    if args.len() == 0 {
        None
    } else {
        let v = match args[0] {
            SpecRawArg::Named(_, v) => v,
            SpecRawArg::Positional(v) => v,
        };
        match v {
            SpecRawValue::Int(n) => Some(n),
            _ => spec_first_int(args.drop_first()),
        }
    }
}

/// The first named argument called `key` whose value is an integer.
pub open spec fn spec_named_int(args: Seq<SpecRawArg>, key: Seq<char>) -> Option<i64>
    decreases args.len(),
{
    if args.len() == 0 {
        None
    } else {
        match args[0] {
            SpecRawArg::Named(k, SpecRawValue::Int(n)) => if k == key {
                Some(n)
            } else {
                spec_named_int(args.drop_first(), key)
            },
            _ => spec_named_int(args.drop_first(), key),
        }
    }
}

/// The integer values of the positional arguments, in order.
pub open spec fn spec_positional_ints(args: Seq<SpecRawArg>) -> Seq<i64>
    decreases args.len(),
{
    if args.len() == 0 {
        Seq::empty()
    } else {
        let rest = spec_positional_ints(args.drop_last());
        match args.last() {
            SpecRawArg::Positional(SpecRawValue::Int(n)) => rest.push(n),
            _ => rest,
        }
    }
}

/// Precision and scale of `@db.Decimal(p, s)`: each from its named argument if
/// given, else from the next unused positional integer; truncated to `u8`.
pub open spec fn spec_two_ints(args: Seq<SpecRawArg>) -> (Option<u8>, Option<u8>) {
    let named_p = spec_named_int(args, "precision"@);
    let named_s = spec_named_int(args, "scale"@);
    let pos = spec_positional_ints(args);
    let p = match named_p {
        Some(n) => Some(n as u8),
        None => if pos.len() > 0 {
            Some(pos[0] as u8)
        } else {
            None
        },
    };
    let k: int = if named_p is Some {
        0
    } else {
        1
    };
    let s = match named_s {
        Some(n) => Some(n as u8),
        None => if pos.len() > k {
            Some(pos[k] as u8)
        } else {
            None
        },
    };
    (p, s)
}

/// The hint for a `@db.<hint>` name, given the first integer argument and the
/// precision/scale pair.
pub open spec fn spec_hint_for(
    h: Seq<char>,
    fi: Option<i64>,
    p: Option<u8>,
    s: Option<u8>,
    hint_text: Seq<char>,
) -> Option<SpecDbHint> {
    let prec: u8 = match fi {
        Some(n) => n as u8,
        None => 0u8,
    };
    if h == "VarChar"@ {
        match fi {
            Some(n) => Some(SpecDbHint::VarChar { length: n as u32 }),
            None => None,
        }
    } else if h == "Char"@ {
        match fi {
            Some(n) => Some(SpecDbHint::Char { length: n as u32 }),
            None => None,
        }
    } else if h == "Text"@ {
        Some(SpecDbHint::Text)
    } else if h == "TinyText"@ {
        Some(SpecDbHint::TinyText)
    } else if h == "MediumText"@ {
        Some(SpecDbHint::MediumText)
    } else if h == "LongText"@ {
        Some(SpecDbHint::LongText)
    } else if h == "SmallInt"@ {
        Some(SpecDbHint::SmallInt)
    } else if h == "Int"@ || h == "Integer"@ {
        Some(SpecDbHint::Int)
    } else if h == "BigInt"@ {
        Some(SpecDbHint::BigInt)
    } else if h == "TinyInt"@ {
        Some(SpecDbHint::TinyInt)
    } else if h == "MediumInt"@ {
        Some(SpecDbHint::MediumInt)
    } else if h == "Year"@ {
        Some(SpecDbHint::Year)
    } else if h == "Float"@ {
        Some(SpecDbHint::Float)
    } else if h == "DoublePrecision"@ {
        Some(SpecDbHint::DoublePrecision)
    } else if h == "Real"@ {
        Some(SpecDbHint::Real)
    } else if h == "Decimal"@ || h == "Numeric"@ {
        match (p, s) {
            (Some(p), Some(s)) => Some(SpecDbHint::Numeric { precision: p, scale: s }),
            _ => None,
        }
    } else if h == "VarBinary"@ {
        match fi {
            Some(n) => Some(SpecDbHint::VarBinary { length: n as u32 }),
            None => None,
        }
    } else if h == "Binary"@ {
        match fi {
            Some(n) => Some(SpecDbHint::Binary { length: n as u32 }),
            None => None,
        }
    } else if h == "TinyBlob"@ {
        Some(SpecDbHint::TinyBlob)
    } else if h == "Blob"@ {
        Some(SpecDbHint::Blob)
    } else if h == "MediumBlob"@ {
        Some(SpecDbHint::MediumBlob)
    } else if h == "LongBlob"@ {
        Some(SpecDbHint::LongBlob)
    } else if h == "ByteA"@ {
        Some(SpecDbHint::ByteA)
    } else if h == "Bit"@ || h == "VarBit"@ {
        Some(
            SpecDbHint::Bit {
                length: match fi {
                    Some(n) => Some(n as u32),
                    None => None,
                },
            },
        )
    } else if h == "Date"@ {
        Some(SpecDbHint::Date)
    } else if h == "Time"@ {
        Some(SpecDbHint::Time { precision: prec })
    } else if h == "DateTime"@ {
        Some(SpecDbHint::DateTime { precision: prec })
    } else if h == "Timestamp"@ {
        Some(SpecDbHint::Timestamp { precision: prec })
    } else if h == "Timestamptz"@ {
        Some(SpecDbHint::Timestamptz)
    } else if h == "Timetz"@ {
        Some(SpecDbHint::Timetz)
    } else if h == "Interval"@ {
        Some(SpecDbHint::Interval)
    } else if h == "Uuid"@ {
        Some(SpecDbHint::Uuid)
    } else if h == "Inet"@ {
        Some(SpecDbHint::Inet)
    } else if h == "Cidr"@ {
        Some(SpecDbHint::Cidr)
    } else if h == "Xml"@ {
        Some(SpecDbHint::Xml)
    } else if h == "Money"@ {
        Some(SpecDbHint::Money)
    } else if h == "Oid"@ {
        Some(SpecDbHint::Oid)
    } else {
        Some(SpecDbHint::Custom { type_expr: hint_text })
    }
}

/// The hint of a `@db.<hint>(args)` attribute: `None` when the path does not
/// start with `db.` or when a required argument is missing.
pub open spec fn spec_map_db_hint(path: Seq<char>, args: Seq<SpecRawArg>) -> Option<SpecDbHint> {
    if "db."@.is_prefix_of(path) {
        let h = path.subrange(3, path.len() as int);
        let (p, s) = spec_two_ints(args);
        spec_hint_for(h, spec_first_int(args), p, s, h)
    } else {
        None
    }
}

fn first_int(args: &Vec<RawArg>) -> (r: Option<i64>)
    ensures
        r == spec_first_int(raw_args_v(args@)),
{
    let ghost all = raw_args_v(args@);
    proof {
        lemma_raw_args_len(args@);
        assert(all.skip(0) =~= all);
    }
    let mut i: usize = 0;
    while i < args.len()
        invariant
            i <= args@.len(),
            all == raw_args_v(args@),
            all.len() == args@.len(),
            spec_first_int(all) == spec_first_int(all.skip(i as int)),
        decreases args@.len() - i,
    {
        proof {
            lemma_raw_args_index(args@, i as int);
            assert(all.skip(i as int).drop_first() =~= all.skip(i + 1));
        }
        let v = match &args[i] {
            RawArg::Named(_, v) => v,
            RawArg::Positional(v) => v,
        };
        if let RawValue::Int(n) = v {
            return Some(*n);
        }
        i = i + 1;
    }
    None
}

fn named_int(args: &Vec<RawArg>, key: &str) -> (r: Option<i64>)
    ensures
        r == spec_named_int(raw_args_v(args@), key@),
{
    let ghost all = raw_args_v(args@);
    proof {
        lemma_raw_args_len(args@);
        assert(all.skip(0) =~= all);
    }
    let mut i: usize = 0;
    while i < args.len()
        invariant
            i <= args@.len(),
            all == raw_args_v(args@),
            all.len() == args@.len(),
            spec_named_int(all, key@) == spec_named_int(all.skip(i as int), key@),
        decreases args@.len() - i,
    {
        proof {
            lemma_raw_args_index(args@, i as int);
            assert(all.skip(i as int).drop_first() =~= all.skip(i + 1));
        }
        if let RawArg::Named(k, RawValue::Int(n)) = &args[i] {
            if str_eq(k.as_str(), key) {
                return Some(*n);
            }
        }
        i = i + 1;
    }
    None
}

fn positional_ints(args: &Vec<RawArg>) -> (r: Vec<i64>)
    ensures
        r@ == spec_positional_ints(raw_args_v(args@)),
{
    let ghost all = raw_args_v(args@);
    proof {
        lemma_raw_args_len(args@);
    }
    let mut out: Vec<i64> = Vec::new();
    let mut i: usize = 0;
    while i < args.len()
        invariant
            i <= args@.len(),
            all == raw_args_v(args@),
            all.len() == args@.len(),
            out@ == spec_positional_ints(all.take(i as int)),
        decreases args@.len() - i,
    {
        proof {
            lemma_raw_args_index(args@, i as int);
            assert(all.take(i + 1).drop_last() =~= all.take(i as int));
        }
        if let RawArg::Positional(RawValue::Int(n)) = &args[i] {
            out.push(*n);
        }
        i = i + 1;
    }
    assert(all.take(args@.len() as int) =~= all);
    out
}

fn two_ints(args: &Vec<RawArg>) -> (r: (Option<u8>, Option<u8>))
    ensures
        r == spec_two_ints(raw_args_v(args@)),
{
    let named_p = named_int(args, "precision");
    let named_s = named_int(args, "scale");
    let pos = positional_ints(args);
    let p = match named_p {
        Some(n) => Some(n as u8),
        None => if pos.len() > 0 {
            Some(pos[0] as u8)
        } else {
            None
        },
    };
    let k: usize = if named_p.is_some() {
        0
    } else {
        1
    };
    let s = match named_s {
        Some(n) => Some(n as u8),
        None => if pos.len() > k {
            Some(pos[k] as u8)
        } else {
            None
        },
    };
    (p, s)
}

/// Maps a `@db.<hint>(args)` attribute to a database type hint; `None` when
/// the path does not start with `db.` or a required argument is missing.
pub fn map_db_hint(path: &str, args: &Vec<RawArg>) -> (r: Option<DbHint>)
    ensures
        r.deep_view() == spec_map_db_hint(path@, raw_args_v(args@)),
{
    if !starts_with(path, "db.") {
        return None;
    }
    proof {
        reveal_strlit("db.");
    }
    let hint = drop_chars(path, 3);
    let h = hint.as_str();
    let fi = first_int(args);
    let (p, s) = two_ints(args);
    let prec: u8 = match fi {
        Some(n) => n as u8,
        None => 0u8,
    };
    let r = if str_eq(h, "VarChar") {
        match fi {
            Some(n) => Some(DbHint::VarChar { length: n as u32 }),
            None => None,
        }
    } else if str_eq(h, "Char") {
        match fi {
            Some(n) => Some(DbHint::Char { length: n as u32 }),
            None => None,
        }
    } else if str_eq(h, "Text") {
        Some(DbHint::Text)
    } else if str_eq(h, "TinyText") {
        Some(DbHint::TinyText)
    } else if str_eq(h, "MediumText") {
        Some(DbHint::MediumText)
    } else if str_eq(h, "LongText") {
        Some(DbHint::LongText)
    } else if str_eq(h, "SmallInt") {
        Some(DbHint::SmallInt)
    } else if str_eq(h, "Int") || str_eq(h, "Integer") {
        Some(DbHint::Int)
    } else if str_eq(h, "BigInt") {
        Some(DbHint::BigInt)
    } else if str_eq(h, "TinyInt") {
        Some(DbHint::TinyInt)
    } else if str_eq(h, "MediumInt") {
        Some(DbHint::MediumInt)
    } else if str_eq(h, "Year") {
        Some(DbHint::Year)
    } else if str_eq(h, "Float") {
        Some(DbHint::Float)
    } else if str_eq(h, "DoublePrecision") {
        Some(DbHint::DoublePrecision)
    } else if str_eq(h, "Real") {
        Some(DbHint::Real)
    } else if str_eq(h, "Decimal") || str_eq(h, "Numeric") {
        match (p, s) {
            (Some(p), Some(s)) => Some(DbHint::Numeric { precision: p, scale: s }),
            _ => None,
        }
    } else if str_eq(h, "VarBinary") {
        match fi {
            Some(n) => Some(DbHint::VarBinary { length: n as u32 }),
            None => None,
        }
    } else if str_eq(h, "Binary") {
        match fi {
            Some(n) => Some(DbHint::Binary { length: n as u32 }),
            None => None,
        }
    } else if str_eq(h, "TinyBlob") {
        Some(DbHint::TinyBlob)
    } else if str_eq(h, "Blob") {
        Some(DbHint::Blob)
    } else if str_eq(h, "MediumBlob") {
        Some(DbHint::MediumBlob)
    } else if str_eq(h, "LongBlob") {
        Some(DbHint::LongBlob)
    } else if str_eq(h, "ByteA") {
        Some(DbHint::ByteA)
    } else if str_eq(h, "Bit") || str_eq(h, "VarBit") {
        Some(
            DbHint::Bit {
                length: match fi {
                    Some(n) => Some(n as u32),
                    None => None,
                },
            },
        )
    } else if str_eq(h, "Date") {
        Some(DbHint::Date)
    } else if str_eq(h, "Time") {
        Some(DbHint::Time { precision: prec })
    } else if str_eq(h, "DateTime") {
        Some(DbHint::DateTime { precision: prec })
    } else if str_eq(h, "Timestamp") {
        Some(DbHint::Timestamp { precision: prec })
    } else if str_eq(h, "Timestamptz") {
        Some(DbHint::Timestamptz)
    } else if str_eq(h, "Timetz") {
        Some(DbHint::Timetz)
    } else if str_eq(h, "Interval") {
        Some(DbHint::Interval)
    } else if str_eq(h, "Uuid") {
        Some(DbHint::Uuid)
    } else if str_eq(h, "Inet") {
        Some(DbHint::Inet)
    } else if str_eq(h, "Cidr") {
        Some(DbHint::Cidr)
    } else if str_eq(h, "Xml") {
        Some(DbHint::Xml)
    } else if str_eq(h, "Money") {
        Some(DbHint::Money)
    } else if str_eq(h, "Oid") {
        Some(DbHint::Oid)
    } else {
        Some(DbHint::Custom { type_expr: hint })
    };
    r
}

// ── Default values ─────────────────────────────────────────────────────────

/// The first positional argument that is a string.
pub open spec fn spec_first_positional_string(args: Seq<SpecRawArg>) -> Option<Seq<char>>
    decreases args.len(),
{
    if args.len() == 0 {
        None
    } else {
        match args[0] {
            SpecRawArg::Positional(SpecRawValue::Str(s)) => Some(s),
            _ => spec_first_positional_string(args.drop_first()),
        }
    }
}

pub open spec fn spec_map_default_value(v: SpecRawValue) -> Option<SpecDefaultValue> {
    match v {
        SpecRawValue::Str(s) => Some(SpecDefaultValue::Literal(SpecLiteralValue::String(s))),
        SpecRawValue::Int(n) => Some(SpecDefaultValue::Literal(SpecLiteralValue::Int(n))),
        SpecRawValue::Float(t) => Some(SpecDefaultValue::Literal(SpecLiteralValue::Float(t))),
        SpecRawValue::Ident(s) => if s == "true"@ {
            Some(SpecDefaultValue::Literal(SpecLiteralValue::Bool(true)))
        } else if s == "false"@ {
            Some(SpecDefaultValue::Literal(SpecLiteralValue::Bool(false)))
        } else {
            Some(SpecDefaultValue::Literal(SpecLiteralValue::String(s)))
        },
        SpecRawValue::Call(name, args) => if name == "autoincrement"@ {
            Some(SpecDefaultValue::Function(SpecDefaultFn::AutoIncrement))
        } else if name == "now"@ {
            Some(SpecDefaultValue::Function(SpecDefaultFn::Now))
        } else if name == "uuid"@ {
            Some(SpecDefaultValue::Function(SpecDefaultFn::Uuid))
        } else if name == "cuid"@ {
            Some(SpecDefaultValue::Function(SpecDefaultFn::Cuid))
        } else if name == "cuid2"@ {
            Some(SpecDefaultValue::Function(SpecDefaultFn::Cuid2))
        } else if name == "ulid"@ {
            Some(SpecDefaultValue::Function(SpecDefaultFn::Ulid))
        } else if name == "dbgenerated"@ {
            Some(
                SpecDefaultValue::Raw(
                    match spec_first_positional_string(args) {
                        Some(e) => e,
                        None => Seq::empty(),
                    },
                ),
            )
        } else {
            None
        },
        SpecRawValue::Array(_) => None,
        SpecRawValue::BadInt(_) => None,
    }
}

fn first_positional_string(args: &Vec<RawArg>) -> (r: Option<String>)
    ensures
        r.deep_view() == spec_first_positional_string(raw_args_v(args@)),
{
    let ghost all = raw_args_v(args@);
    proof {
        lemma_raw_args_len(args@);
        assert(all.skip(0) =~= all);
    }
    let mut i: usize = 0;
    while i < args.len()
        invariant
            i <= args@.len(),
            all == raw_args_v(args@),
            all.len() == args@.len(),
            spec_first_positional_string(all) == spec_first_positional_string(all.skip(i as int)),
        decreases args@.len() - i,
    {
        proof {
            lemma_raw_args_index(args@, i as int);
            assert(all.skip(i as int).drop_first() =~= all.skip(i + 1));
        }
        if let RawArg::Positional(RawValue::Str(s)) = &args[i] {
            return Some(s.clone());
        }
        i = i + 1;
    }
    None
}

/// Maps the value of `@default(...)` to a column default; `None` for an array
/// or an unknown function.
pub fn map_default_value(v: &RawValue) -> (r: Option<DefaultValue>)
    ensures
        r.deep_view() == spec_map_default_value(v.deep_view()),
{
    match v {
        RawValue::Str(s) => Some(DefaultValue::Literal(LiteralValue::String(s.clone()))),
        RawValue::Int(n) => Some(DefaultValue::Literal(LiteralValue::Int(*n))),
        RawValue::Float(t) => Some(DefaultValue::Literal(LiteralValue::Float(t.clone()))),
        RawValue::Ident(s) => {
            if str_eq(s.as_str(), "true") {
                Some(DefaultValue::Literal(LiteralValue::Bool(true)))
            } else if str_eq(s.as_str(), "false") {
                Some(DefaultValue::Literal(LiteralValue::Bool(false)))
            } else {
                Some(DefaultValue::Literal(LiteralValue::String(s.clone())))
            }
        },
        RawValue::Call(name, args) => {
            let n = name.as_str();
            if str_eq(n, "autoincrement") {
                Some(DefaultValue::Function(DefaultFn::AutoIncrement))
            } else if str_eq(n, "now") {
                Some(DefaultValue::Function(DefaultFn::Now))
            } else if str_eq(n, "uuid") {
                Some(DefaultValue::Function(DefaultFn::Uuid))
            } else if str_eq(n, "cuid") {
                Some(DefaultValue::Function(DefaultFn::Cuid))
            } else if str_eq(n, "cuid2") {
                Some(DefaultValue::Function(DefaultFn::Cuid2))
            } else if str_eq(n, "ulid") {
                Some(DefaultValue::Function(DefaultFn::Ulid))
            } else if str_eq(n, "dbgenerated") {
                let expr = match first_positional_string(args) {
                    Some(e) => e,
                    None => String::new(),
                };
                Some(DefaultValue::Raw(expr))
            } else {
                None
            }
        },
        RawValue::Array(_) => None,
        RawValue::BadInt(_) => None,
    }
}

// ── Index columns ──────────────────────────────────────────────────────────

/// The direction given by the first `sort: <identifier>` argument; ascending by default.
pub open spec fn spec_sort_of(args: Seq<SpecRawArg>) -> SortDirection
    decreases args.len(),
{
    if args.len() == 0 {
        SortDirection::Asc
    } else {
        match args[0] {
            SpecRawArg::Named(k, SpecRawValue::Ident(s)) => if k == "sort"@ {
                if s == "Desc"@ {
                    SortDirection::Desc
                } else {
                    SortDirection::Asc
                }
            } else {
                spec_sort_of(args.drop_first())
            },
            _ => spec_sort_of(args.drop_first()),
        }
    }
}

/// An index column from a plain identifier (`email`) or a call (`email(sort: Desc)`).
pub open spec fn spec_index_col(v: SpecRawValue) -> SpecIndexColumn {
    match v {
        SpecRawValue::Ident(name) => SpecIndexColumn {
            column: name,
            sort: SortDirection::Asc,
            nulls: None,
        },
        SpecRawValue::Call(name, args) => SpecIndexColumn {
            column: name,
            sort: spec_sort_of(args),
            nulls: None,
        },
        _ => SpecIndexColumn { column: Seq::empty(), sort: SortDirection::Asc, nulls: None },
    }
}

pub open spec fn spec_index_cols_of(items: Seq<SpecRawValue>) -> Seq<SpecIndexColumn> {
    items.map_values(|v: SpecRawValue| spec_index_col(v))
}

/// The index columns of an `@@index` column list: one per item of an array,
/// or the single column that a non-array value names.
pub open spec fn spec_index_columns(v: SpecRawValue) -> Seq<SpecIndexColumn> {
    match v {
        SpecRawValue::Array(items) => spec_index_cols_of(items),
        _ => seq![spec_index_col(v)],
    }
}

fn sort_of(args: &Vec<RawArg>) -> (r: SortDirection)
    ensures
        r == spec_sort_of(raw_args_v(args@)),
{
    let ghost all = raw_args_v(args@);
    proof {
        lemma_raw_args_len(args@);
        assert(all.skip(0) =~= all);
    }
    let mut i: usize = 0;
    while i < args.len()
        invariant
            i <= args@.len(),
            all == raw_args_v(args@),
            all.len() == args@.len(),
            spec_sort_of(all) == spec_sort_of(all.skip(i as int)),
        decreases args@.len() - i,
    {
        proof {
            lemma_raw_args_index(args@, i as int);
            assert(all.skip(i as int).drop_first() =~= all.skip(i + 1));
        }
        if let RawArg::Named(k, RawValue::Ident(s)) = &args[i] {
            if str_eq(k.as_str(), "sort") {
                if str_eq(s.as_str(), "Desc") {
                    return SortDirection::Desc;
                } else {
                    return SortDirection::Asc;
                }
            }
        }
        i = i + 1;
    }
    SortDirection::Asc
}

/// Parses one index column from a plain identifier or a `name(sort: ...)` call.
pub fn extract_one_index_col(v: &RawValue) -> (r: IndexColumn)
    ensures
        r.deep_view() == spec_index_col(v.deep_view()),
{
    match v {
        RawValue::Ident(name) => IndexColumn {
            column: name.clone(),
            sort: SortDirection::Asc,
            nulls: None,
        },
        RawValue::Call(name, args) => IndexColumn {
            column: name.clone(),
            sort: sort_of(args),
            nulls: None,
        },
        _ => IndexColumn { column: String::new(), sort: SortDirection::Asc, nulls: None },
    }
}

/// Parses the column list of `@@index` / `@@fulltext`.
pub fn extract_index_columns(v: &RawValue) -> (r: Vec<IndexColumn>)
    ensures
        r.deep_view() == spec_index_columns(v.deep_view()),
{
    match v {
        RawValue::Array(items) => {
            let ghost all = raw_values_v(items@);
            proof {
                lemma_raw_values_len(items@);
            }
            let mut out: Vec<IndexColumn> = Vec::new();
            let mut i: usize = 0;
            while i < items.len()
                invariant
                    i <= items@.len(),
                    all == raw_values_v(items@),
                    all.len() == items@.len(),
                    out@.len() == i,
                    out.deep_view() == spec_index_cols_of(all.take(i as int)),
                decreases items@.len() - i,
            {
                proof {
                    lemma_raw_values_index(items@, i as int);
                }
                let c = extract_one_index_col(&items[i]);
                let ghost before = out@;
                let ghost before_dv = out.deep_view();
                out.push(c);
                assert(out.deep_view() =~= spec_index_cols_of(all.take(i + 1))) by {
                    assert forall|j: int| 0 <= j < i + 1 implies out.deep_view()[j]
                        == spec_index_cols_of(all.take(i + 1))[j] by {
                        assert(all.take(i + 1)[j] == all[j]);
                        if j < i {
                            assert(out@[j] == before[j]);
                            assert(before_dv[j] == before[j].deep_view());
                            assert(all.take(i as int)[j] == all[j]);
                            assert(before_dv[j] == spec_index_cols_of(all.take(i as int))[j]);
                        } else {
                            assert(out@[j] == c);
                        }
                    }
                }
                i = i + 1;
            }
            assert(all.take(items@.len() as int) =~= all);
            out
        },
        _ => {
            let c = extract_one_index_col(v);
            let mut out: Vec<IndexColumn> = Vec::new();
            out.push(c);
            assert(out.deep_view() =~= seq![c.deep_view()]);
            out
        },
    }
}

// ── Column lists and naming ────────────────────────────────────────────────

/// The column list of `@@id`, `@@unique`: the `fields:` argument, else the
/// first positional argument, read as an array of names.
pub open spec fn spec_columns_from_attr(args: Seq<SpecRawArg>) -> Seq<Seq<char>> {
    match spec_named(args, "fields"@) {
        Some(v) => spec_as_string_array(v),
        None => match spec_first_positional(args) {
            Some(v) => spec_as_string_array(v),
            None => Seq::empty(),
        },
    }
}

/// Extracts a column list from `fields:` or the first positional argument.
pub fn extract_columns_from_attr(attr: &RawAttr) -> (r: Vec<String>)
    ensures
        r.deep_view() == spec_columns_from_attr(attr.deep_view().args),
{
    match attr.named("fields") {
        Some(v) => v.as_string_array(),
        None => match attr.first_positional() {
            Some(v) => v.as_string_array(),
            None => Vec::new(),
        },
    }
}

/// The string given positionally to the first attribute with the given path.
pub open spec fn spec_attr_str(attrs: Seq<SpecRawAttr>, path: Seq<char>) -> Option<Seq<char>> {
    match spec_find_attr(attrs, path) {
        Some(a) => spec_first_positional_str(a.args),
        None => None,
    }
}

/// The string given positionally to the first attribute with the given path.
pub fn attr_str(attrs: &Vec<RawAttr>, path: &str) -> (r: Option<String>)
    ensures
        r.deep_view() == spec_attr_str(attrs.deep_view(), path@),
{
    match find_attr(attrs, path) {
        Some(a) => a.first_positional_str(),
        None => None,
    }
}

/// `db_name` (from `@@map`) and `db_schema` (from `@@schema`) of a block.
pub fn extract_db_naming(block_attrs: &Vec<RawAttr>) -> (r: (Option<String>, Option<String>))
    ensures
        r.0.deep_view() == spec_attr_str(block_attrs.deep_view(), "map"@),
        r.1.deep_view() == spec_attr_str(block_attrs.deep_view(), "schema"@),
{
    (attr_str(block_attrs, "map"), attr_str(block_attrs, "schema"))
}

// ── Unknown attribute values as JSON ───────────────────────────────────────

/// The JSON form of an attribute value: strings and identifiers become JSON
/// strings, numbers JSON numbers, arrays JSON arrays, and a call
/// `f(args)` the object `{"args": [...], "fn": f}` (members in key order).
pub open spec fn spec_value_json(v: SpecRawValue) -> SpecJson
    decreases v,
{
    match v {
        SpecRawValue::Str(s) => SpecJson::String(s),
        SpecRawValue::Int(n) => SpecJson::Int(n),
        SpecRawValue::Float(t) => SpecJson::Float(t),
        SpecRawValue::Ident(s) => SpecJson::String(s),
        SpecRawValue::Array(items) => SpecJson::Array(spec_values_json(items)),
        SpecRawValue::Call(name, args) => SpecJson::Object(
            seq![("args"@, SpecJson::Array(spec_args_json(args))), ("fn"@, SpecJson::String(name))],
        ),
        SpecRawValue::BadInt(_) => SpecJson::Null,
    }
}

pub open spec fn spec_values_json(s: Seq<SpecRawValue>) -> Seq<SpecJson>
    decreases s,
{
    if s.len() == 0 {
        Seq::empty()
    } else {
        spec_values_json(s.drop_last()).push(spec_value_json(s.last()))
    }
}

/// A named argument `k: v` becomes `{k: v}`; a positional one its value.
pub open spec fn spec_arg_json(a: SpecRawArg) -> SpecJson
    decreases a,
{
    match a {
        SpecRawArg::Named(k, v) => SpecJson::Object(seq![(k, spec_value_json(v))]),
        SpecRawArg::Positional(v) => spec_value_json(v),
    }
}

pub open spec fn spec_args_json(s: Seq<SpecRawArg>) -> Seq<SpecJson>
    decreases s,
{
    if s.len() == 0 {
        Seq::empty()
    } else {
        spec_args_json(s.drop_last()).push(spec_arg_json(s.last()))
    }
}

/// The named arguments as object members, each under its name; a later
/// argument with the same name replaces an earlier one.
pub open spec fn spec_named_object(args: Seq<SpecRawArg>) -> Seq<(Seq<char>, SpecJson)>
    decreases args.len(),
{
    if args.len() == 0 {
        Seq::empty()
    } else {
        let acc = spec_named_object(args.drop_last());
        match args.last() {
            SpecRawArg::Named(k, v) => members_insert(acc, k, spec_value_json(v)),
            SpecRawArg::Positional(_) => acc,
        }
    }
}

/// The values of the positional arguments, in order.
pub open spec fn spec_positional_values(args: Seq<SpecRawArg>) -> Seq<SpecJson>
    decreases args.len(),
{
    if args.len() == 0 {
        Seq::empty()
    } else {
        let acc = spec_positional_values(args.drop_last());
        match args.last() {
            SpecRawArg::Named(_, _) => acc,
            SpecRawArg::Positional(v) => acc.push(spec_value_json(v)),
        }
    }
}

/// What `"_"` holds for the positional arguments: the value itself for one,
/// an array of them in order for several.
pub open spec fn spec_positional_json(pos: Seq<SpecJson>) -> SpecJson {
    if pos.len() == 1 {
        pos[0]
    } else {
        SpecJson::Array(pos)
    }
}

/// The object built from arguments: each named argument under its name, and
/// the positional arguments, if any, under `"_"`: a single one as itself,
/// several as an array in order.
pub open spec fn spec_args_object(args: Seq<SpecRawArg>) -> Seq<(Seq<char>, SpecJson)> {
    let named = spec_named_object(args);
    let pos = spec_positional_values(args);
    if pos.len() == 0 {
        named
    } else {
        members_insert(named, "_"@, spec_positional_json(pos))
    }
}

/// The value recorded for an unknown attribute: `true` without arguments, the
/// value itself for a single positional argument, else an object of the arguments.
pub open spec fn spec_args_to_json(args: Seq<SpecRawArg>) -> SpecJson {
    if args.len() == 0 {
        SpecJson::Bool(true)
    } else if args.len() == 1 && args[0] is Positional {
        spec_value_json(args[0]->Positional_0)
    } else {
        SpecJson::Object(spec_args_object(args))
    }
}

/// Converts an attribute value to JSON.
pub fn raw_value_to_json(v: &RawValue) -> (r: JsonValue)
    ensures
        json_v(r) == spec_value_json(v.deep_view()),
    decreases v,
{
    match v {
        RawValue::Str(s) => JsonValue::String(s.clone()),
        RawValue::Int(n) => JsonValue::Int(*n),
        RawValue::Float(t) => JsonValue::Float(t.clone()),
        RawValue::Ident(s) => JsonValue::String(s.clone()),
        RawValue::Array(items) => {
            let ghost all = raw_values_v(items@);
            proof {
                lemma_raw_values_len(items@);
            }
            let mut out: Vec<JsonValue> = Vec::new();
            let mut i: usize = 0;
            while i < items.len()
                invariant
                    *v == RawValue::Array(*items),
                    i <= items@.len(),
                    all == raw_values_v(items@),
                    all.len() == items@.len(),
                    json_seq_v(out@) == spec_values_json(all.take(i as int)),
                decreases items@.len() - i,
            {
                proof {
                    lemma_raw_values_index(items@, i as int);
                    assert(decreases_to!(*v => (*v)->Array_0));
                    assert(decreases_to!((*v)->Array_0 => items@));
                    assert(decreases_to!(items@ => items@[i as int]));
                }
                let j = raw_value_to_json(&items[i]);
                proof {
                    lemma_json_seq_push(out@, j);
                    assert(all.take(i + 1).drop_last() =~= all.take(i as int));
                }
                out.push(j);
                i = i + 1;
            }
            assert(all.take(items@.len() as int) =~= all);
            JsonValue::Array(out)
        },
        RawValue::Call(name, args) => {
            let ghost all = raw_args_v(args@);
            proof {
                lemma_raw_args_len(args@);
            }
            let mut out: Vec<JsonValue> = Vec::new();
            let mut i: usize = 0;
            while i < args.len()
                invariant
                    *v == RawValue::Call(*name, *args),
                    i <= args@.len(),
                    all == raw_args_v(args@),
                    all.len() == args@.len(),
                    json_seq_v(out@) == spec_args_json(all.take(i as int)),
                decreases args@.len() - i,
            {
                proof {
                    lemma_raw_args_index(args@, i as int);
                    assert(decreases_to!(*v => (*v)->Call_1));
                    assert(decreases_to!((*v)->Call_1 => args@));
                    assert(decreases_to!(args@ => args@[i as int]));
                }
                let j = raw_arg_to_json(&args[i]);
                proof {
                    lemma_json_seq_push(out@, j);
                    assert(all.take(i + 1).drop_last() =~= all.take(i as int));
                }
                out.push(j);
                i = i + 1;
            }
            assert(all.take(args@.len() as int) =~= all);
            let mut members: Vec<(String, JsonValue)> = Vec::new();
            let f = JsonValue::String(name.clone());
            let a = JsonValue::Array(out);
            let kf = String::from_str("fn");
            let ka = String::from_str("args");
            let ghost m0 = members@;
            members.push((ka, a));
            let ghost m1 = members@;
            members.push((kf, f));
            proof {
                lemma_json_members_push(m0, ka, a);
                lemma_json_members_push(m1, kf, f);
                assert(m0 =~= Seq::<(String, JsonValue)>::empty());
                assert(json_members_v(m0) =~= Seq::<(Seq<char>, SpecJson)>::empty());
                assert(json_members_v(members@) =~= seq![
                    ("args"@, SpecJson::Array(spec_args_json(all))),
                    ("fn"@, SpecJson::String(name@)),
                ]);
            }
            JsonValue::Object(members)
        },
        RawValue::BadInt(_) => JsonValue::Null,
    }
}

/// Converts one call argument to JSON.
pub fn raw_arg_to_json(a: &RawArg) -> (r: JsonValue)
    ensures
        json_v(r) == spec_arg_json(a.deep_view()),
    decreases a,
{
    match a {
        RawArg::Named(k, v) => {
            proof {
                assert(decreases_to!(*a => (*a)->Named_1));
            }
            let j = raw_value_to_json(v);
            let mut members: Vec<(String, JsonValue)> = Vec::new();
            let ghost m0 = members@;
            let key = k.clone();
            members.push((key, j));
            proof {
                lemma_json_members_push(m0, key, j);
                assert(json_members_v(m0) =~= Seq::<(Seq<char>, SpecJson)>::empty());
                assert(json_members_v(members@) =~= seq![(k@, spec_value_json(raw_value_v(*v)))]);
            }
            JsonValue::Object(members)
        },
        RawArg::Positional(v) => {
            proof {
                assert(decreases_to!(*a => (*a)->Positional_0));
            }
            raw_value_to_json(v)
        },
    }
}

/// The JSON value recorded for an attribute that has no IR equivalent.
pub fn raw_args_to_json(args: &Vec<RawArg>) -> (r: JsonValue)
    ensures
        json_v(r) == spec_args_to_json(raw_args_v(args@)),
{
    let ghost all = raw_args_v(args@);
    proof {
        lemma_raw_args_len(args@);
    }
    if args.len() == 0 {
        return JsonValue::Bool(true);
    }
    if args.len() == 1 {
        if let RawArg::Positional(v) = &args[0] {
            proof {
                lemma_raw_args_index(args@, 0);
            }
            return raw_value_to_json(v);
        }
    }
    let mut members: Vec<(String, JsonValue)> = Vec::new();
    let mut pos: Vec<JsonValue> = Vec::new();
    let mut i: usize = 0;
    while i < args.len()
        invariant
            i <= args@.len(),
            all == raw_args_v(args@),
            all.len() == args@.len(),
            json_members_v(members@) == spec_named_object(all.take(i as int)),
            json_seq_v(pos@) == spec_positional_values(all.take(i as int)),
        decreases args@.len() - i,
    {
        proof {
            lemma_raw_args_index(args@, i as int);
            assert(all.take(i + 1).drop_last() =~= all.take(i as int));
        }
        match &args[i] {
            RawArg::Named(k, v) => {
                let j = raw_value_to_json(v);
                object_insert(&mut members, k.clone(), j);
            },
            RawArg::Positional(v) => {
                let j = raw_value_to_json(v);
                proof {
                    lemma_json_seq_push(pos@, j);
                }
                pos.push(j);
            },
        }
        i = i + 1;
    }
    proof {
        assert(all.take(args@.len() as int) =~= all);
        lemma_raw_args_index(args@, 0);
        lemma_json_seq_len(pos@);
    }
    if pos.len() == 1 {
        let ghost p0 = pos@;
        let v = pos.pop().unwrap();
        proof {
            assert(p0.drop_last() =~= Seq::<JsonValue>::empty());
            assert(json_seq_v(p0)[0] == json_v(v)) by {
                assert(json_seq_v(p0) == json_seq_v(p0.drop_last()).push(json_v(p0.last())));
            }
        }
        object_insert(&mut members, String::from_str("_"), v);
    } else if pos.len() > 1 {
        object_insert(&mut members, String::from_str("_"), JsonValue::Array(pos));
    }
    JsonValue::Object(members)
}

} // verus!
