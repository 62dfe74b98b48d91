//! Importer for Prisma Schema Language (`.prisma`) files.
//!
//! The input is split into tokens ([`lexer`]), the tokens are read into blocks
//! ([`parser`]), and the blocks are resolved into the pivot IR ([`resolver`]).
pub mod ast;
pub mod mappers;
pub mod scalar_table;
pub mod relations;
pub mod resolver;
pub mod lexer;
pub mod parser;
pub mod laws;
pub mod mapping_laws;
pub mod relation_laws;
pub mod parse_laws;

use crate::importer::{ImportError, Importer, SpecImportError};
use crate::pivot::schema::{spec_empty_schema, Enum, Schema, SpecEnum, SpecSchema};
use crate::pivot::table::SpecTable;
use crate::text::{chars_of, concat, lemma_dv_empty, lemma_dv_push, position, spec_position, string_from};
use ast::{
    RawEnum, RawField, RawModel, RawTypeAlias, SpecRawEnum, SpecRawField, SpecRawModel,
    SpecRawTypeAlias,
};
use mappers::{map_scalar_type, spec_map_scalar_type};
use scalar_table::{contains_str, find_alias, has_model, spec_find_alias, spec_has_model};
use lexer::{lemma_lex_wf, lex, lex_fail, spec_lex, toks_wf, Tok};
use parser::{
    first_bad, lemma_first_bad, parse_doc, spec_doc_fail, spec_first_bad, spec_parse_doc, text,
    tok_string, SpecDoc,
};
use resolver::{
    enum_of, resolve_models, resolve_views, spec_enum_of, spec_resolve_models, spec_view_of,
};
use vstd::prelude::*;

verus! {

// ── Specification ──────────────────────────────────────────────────────────

/// The message of the parse error for input that cannot be split into tokens
/// at position `p`: what stands there, and where.
pub open spec fn spec_lex_error(s: Seq<char>, p: int) -> Seq<char> {
    let what = if s[p] == '"' {
        "unterminated string literal"@
    } else {
        "unexpected character `"@ + seq![s[p]] + "`"@
    };
    what + " at "@ + spec_position(s, p)
}

/// The message of the parse error for a block, starting with token `k`, that
/// cannot be read: its first token, and where it starts.
pub open spec fn spec_syntax_error(s: Seq<char>, t: Seq<Tok>, k: int) -> Seq<char> {
    "invalid block starting with `"@ + text(s, t, k) + "` at "@ + spec_position(
        s,
        t[k].start as int,
    )
}

/// The names of a schema's enums, in order.
pub open spec fn spec_enum_names(enums: Seq<SpecRawEnum>) -> Seq<Seq<char>> {
    enums.map_values(|e: SpecRawEnum| e.name)
}

/// The pivot schema of a parsed document: its tables, views and enums in
/// block order, for the database its datasource selects.
pub open spec fn spec_resolve_doc(d: SpecDoc) -> SpecSchema {
    SpecSchema {
        tables: spec_resolve_models(d.models, spec_enum_names(d.enums), d.aliases),
        views: d.views.map_values(|m: SpecRawModel| spec_view_of(m)),
        enums: d.enums.map_values(|e: SpecRawEnum| spec_enum_of(e)),
        ..spec_empty_schema(d.database)
    }
}

/// Whether a type name is known: a Prisma scalar type, an enum, a model, a
/// view or a type alias of the schema.
pub open spec fn spec_known_type(
    models: Seq<SpecRawModel>,
    views: Seq<SpecRawModel>,
    enums: Seq<Seq<char>>,
    aliases: Seq<SpecRawTypeAlias>,
    t: Seq<char>,
) -> bool {
    ||| spec_map_scalar_type(t) is Some
    ||| enums.contains(t)
    ||| spec_has_model(models, t)
    ||| spec_has_model(views, t)
    ||| spec_find_alias(aliases, t) is Some
}

/// Whether a field references a type that the schema does not define;
/// `Unsupported("...")` fields name a database type and are never unknown.
pub open spec fn spec_unknown_field(
    f: SpecRawField,
    models: Seq<SpecRawModel>,
    views: Seq<SpecRawModel>,
    enums: Seq<Seq<char>>,
    aliases: Seq<SpecRawTypeAlias>,
) -> bool {
    f.unsupported_type is None && !spec_known_type(models, views, enums, aliases, f.base_type)
}

/// The first field, from index `i` on, that references an unknown type.
pub open spec fn spec_unknown_field_from(
    fields: Seq<SpecRawField>,
    i: int,
    models: Seq<SpecRawModel>,
    views: Seq<SpecRawModel>,
    enums: Seq<Seq<char>>,
    aliases: Seq<SpecRawTypeAlias>,
) -> Option<int>
    decreases fields.len() - i,
{
    if i < 0 || i >= fields.len() {
        None
    } else if spec_unknown_field(fields[i], models, views, enums, aliases) {
        Some(i)
    } else {
        spec_unknown_field_from(fields, i + 1, models, views, enums, aliases)
    }
}

/// The first block, from index `b` on, with a field that references an
/// unknown type, and that field's index.
pub open spec fn spec_first_unknown_from(
    blocks: Seq<SpecRawModel>,
    b: int,
    models: Seq<SpecRawModel>,
    views: Seq<SpecRawModel>,
    enums: Seq<Seq<char>>,
    aliases: Seq<SpecRawTypeAlias>,
) -> Option<(int, int)>
    decreases blocks.len() - b,
{
    if b < 0 || b >= blocks.len() {
        None
    } else {
        match spec_unknown_field_from(blocks[b].fields, 0, models, views, enums, aliases) {
            Some(f) => Some((b, f)),
            None => spec_first_unknown_from(blocks, b + 1, models, views, enums, aliases),
        }
    }
}

/// The message of the schema error for a field that references an unknown type.
pub open spec fn spec_unknown_type_message(block: SpecRawModel, f: SpecRawField) -> Seq<char> {
    "unknown type "@ + f.base_type + " on field "@ + block.name + "."@ + f.name
}

/// The schema error for the first model field, else the first view field,
/// that references an unknown type.
pub open spec fn spec_unknown_type_error(d: SpecDoc) -> Option<Seq<char>> {
    let es = spec_enum_names(d.enums);
    match spec_first_unknown_from(d.models, 0, d.models, d.views, es, d.aliases) {
        Some((b, f)) => Some(spec_unknown_type_message(d.models[b], d.models[b].fields[f])),
        None => match spec_first_unknown_from(d.views, 0, d.models, d.views, es, d.aliases) {
            Some((b, f)) => Some(spec_unknown_type_message(d.views[b], d.views[b].fields[f])),
            None => None,
        },
    }
}

/// What importing a Prisma schema gives: a parse error when the input is not
/// Prisma Schema Language; a schema error naming the first integer literal
/// (in block order) that does not fit in 64 bits; a schema error naming the
/// first field that references a type the schema does not define (no Prisma
/// scalar, enum, model, view or type alias has its name); and otherwise the
/// resolved schema.
pub open spec fn spec_import(input: Seq<char>) -> Result<SpecSchema, SpecImportError> {
    match spec_lex(input) {
        None => Err(SpecImportError::Parse(spec_lex_error(input, lex_fail(input, 0)))),
        Some(t) => match spec_parse_doc(input, t) {
            None => Err(SpecImportError::Parse(spec_syntax_error(input, t, spec_doc_fail(input, t, 0)))),
            Some(d) => match spec_first_bad(input, t, d.ranges) {
                Some(k) => Err(SpecImportError::Schema("invalid integer: "@ + text(input, t, k))),
                None => match spec_unknown_type_error(d) {
                    Some(msg) => Err(SpecImportError::Schema(msg)),
                    None => Ok(spec_resolve_doc(d)),
                },
            },
        },
    }
}

/// Whether a result is what importing `input` gives.
pub open spec fn import_result_matches(
    r: Result<Schema, ImportError>,
    input: Seq<char>,
) -> bool {
    match r {
        Ok(s) => spec_import(input) == Ok::<SpecSchema, SpecImportError>(s.deep_view()),
        Err(e) => spec_import(input) == Err::<SpecSchema, SpecImportError>(e.deep_view()),
    }
}

// ── Public API ─────────────────────────────────────────────────────────────

/// Importer for Prisma Schema Language (`.prisma`) files.
pub struct PrismaImporter;

impl Importer for PrismaImporter {
    fn import(&self, input: &str) -> (r: Result<Schema, ImportError>)
        ensures
            import_result_matches(r, input@),
    {
        parse_schema(input)
    }
}

fn resolve_enums(raw: &Vec<RawEnum>) -> (r: Vec<Enum>)
    ensures
        r.deep_view() == raw.deep_view().map_values(|e: SpecRawEnum| spec_enum_of(e)),
{
    let ghost all = raw.deep_view();
    let mut out: Vec<Enum> = Vec::new();
    proof {
        lemma_dv_empty(out);
    }
    let mut i: usize = 0;
    while i < raw.len()
        invariant
            i <= raw@.len(),
            all == raw.deep_view(),
            out.deep_view() == all.take(i as int).map_values(|e: SpecRawEnum| spec_enum_of(e)),
        decreases raw@.len() - i,
    {
        let e = enum_of(&raw[i]);
        let ghost o0 = out;
        out.push(e);
        proof {
            lemma_dv_push(o0, out, e);
            assert(out.deep_view() =~= all.take(i + 1).map_values(
                |e: SpecRawEnum| spec_enum_of(e),
            ));
        }
        i = i + 1;
    }
    assert(all.take(raw@.len() as int) =~= all);
    out
}

fn enum_names(raw: &Vec<RawEnum>) -> (r: Vec<String>)
    ensures
        r.deep_view() == spec_enum_names(raw.deep_view()),
{
    let ghost all = raw.deep_view();
    let mut out: Vec<String> = Vec::new();
    proof {
        lemma_dv_empty(out);
    }
    let mut i: usize = 0;
    while i < raw.len()
        invariant
            i <= raw@.len(),
            all == raw.deep_view(),
            out.deep_view() == spec_enum_names(all.take(i as int)),
        decreases raw@.len() - i,
    {
        let n = raw[i].name.clone();
        let ghost o0 = out;
        out.push(n);
        proof {
            lemma_dv_push(o0, out, n);
            assert(out.deep_view() =~= spec_enum_names(all.take(i + 1)));
        }
        i = i + 1;
    }
    assert(all.take(raw@.len() as int) =~= all);
    out
}

fn lex_error(s: &Vec<char>, p: usize) -> (r: String)
    requires
        p < s@.len(),
    ensures
        r@ == spec_lex_error(s@, p as int),
{
    let what = if s[p] == '"' {
        String::from_str("unterminated string literal")
    } else {
        let mut c = String::new();
        c.push(s[p]);
        let a = concat("unexpected character `", c.as_str());
        proof {
            assert(c@ =~= seq![s@[p as int]]);
        }
        concat(a.as_str(), "`")
    };
    let b = concat(what.as_str(), " at ");
    concat(b.as_str(), position(s, p).as_str())
}

fn syntax_error(s: &Vec<char>, t: &Vec<Tok>, k: usize) -> (r: String)
    requires
        toks_wf(s@, t@),
        k < t@.len(),
    ensures
        r@ == spec_syntax_error(s@, t@, k as int),
{
    let tok = tok_string(s, t, k);
    let a = concat("invalid block starting with `", tok.as_str());
    let b = concat(a.as_str(), "` at ");
    concat(b.as_str(), position(s, t[k].start).as_str())
}

fn unknown_type_message(block: &RawModel, f: &RawField) -> (r: String)
    ensures
        r@ == spec_unknown_type_message(block.deep_view(), f.deep_view()),
{
    let a = concat("unknown type ", f.base_type.as_str());
    let b = concat(a.as_str(), " on field ");
    let c = concat(b.as_str(), block.name.as_str());
    let d = concat(c.as_str(), ".");
    concat(d.as_str(), f.name.as_str())
}

fn is_known_type(
    models: &Vec<RawModel>,
    views: &Vec<RawModel>,
    enums: &Vec<String>,
    aliases: &Vec<RawTypeAlias>,
    t: &str,
) -> (r: bool)
    ensures
        r == spec_known_type(
            models.deep_view(),
            views.deep_view(),
            enums.deep_view(),
            aliases.deep_view(),
            t@,
        ),
{
    map_scalar_type(t).is_some() || contains_str(enums, t) || has_model(models, t) || has_model(
        views,
        t,
    ) || find_alias(
        aliases,
        t,
    ).is_some()
}

fn first_unknown(
    blocks: &Vec<RawModel>,
    models: &Vec<RawModel>,
    views: &Vec<RawModel>,
    enums: &Vec<String>,
    aliases: &Vec<RawTypeAlias>,
) -> (r: Option<(usize, usize)>)
    ensures
        r matches Some((b, f)) ==> b < blocks@.len() && f < blocks@[b as int].fields@.len()
            && spec_first_unknown_from(
            blocks.deep_view(),
            0,
            models.deep_view(),
            views.deep_view(),
            enums.deep_view(),
            aliases.deep_view(),
        ) == Some((b as int, f as int)),
        r is None ==> spec_first_unknown_from(
            blocks.deep_view(),
            0,
            models.deep_view(),
            views.deep_view(),
            enums.deep_view(),
            aliases.deep_view(),
        ) is None,
{
    let ghost bs = blocks.deep_view();
    let ghost ms = models.deep_view();
    let ghost vs = views.deep_view();
    let ghost es = enums.deep_view();
    let ghost als = aliases.deep_view();
    let mut b: usize = 0;
    while b < blocks.len()
        invariant
            b <= blocks@.len(),
            bs == blocks.deep_view(),
            ms == models.deep_view(),
            vs == views.deep_view(),
            es == enums.deep_view(),
            als == aliases.deep_view(),
            spec_first_unknown_from(bs, 0, ms, vs, es, als) == spec_first_unknown_from(
                bs,
                b as int,
                ms,
                vs,
                es,
                als,
            ),
        decreases blocks@.len() - b,
    {
        let fields = &blocks[b].fields;
        let ghost fs = fields.deep_view();
        assert(fs == bs[b as int].fields);
        let mut f: usize = 0;
        while f < fields.len()
            invariant
                f <= fields@.len(),
                fs == fields.deep_view(),
                b < blocks@.len(),
                *fields == blocks@[b as int].fields,
                bs == blocks.deep_view(),
                fs == bs[b as int].fields,
                spec_first_unknown_from(bs, 0, ms, vs, es, als) == spec_first_unknown_from(
                    bs,
                    b as int,
                    ms,
                    vs,
                    es,
                    als,
                ),
                ms == models.deep_view(),
                vs == views.deep_view(),
            vs == views.deep_view(),
                es == enums.deep_view(),
                als == aliases.deep_view(),
                spec_unknown_field_from(fs, 0, ms, vs, es, als) == spec_unknown_field_from(
                    fs,
                    f as int,
                    ms,
                    vs,
                    es,
                    als,
                ),
            decreases fields@.len() - f,
        {
            let fd = &fields[f];
            assert(fd.deep_view() == fs[f as int]);
            if fd.unsupported_type.is_none() && !is_known_type(
                models,
                views,
                enums,
                aliases,
                fd.base_type.as_str(),
            ) {
                assert(spec_unknown_field_from(fs, f as int, ms, vs, es, als) == Some(f as int));
                assert(spec_first_unknown_from(bs, b as int, ms, vs, es, als) == Some(
                    (b as int, f as int),
                ));
                return Some((b, f));
            }
            f = f + 1;
        }
        assert(spec_unknown_field_from(fs, f as int, ms, vs, es, als) is None);
        assert(spec_first_unknown_from(bs, b as int, ms, vs, es, als) == spec_first_unknown_from(
            bs,
            b + 1,
            ms,
            vs,
            es,
            als,
        ));
        b = b + 1;
    }
    None
}

/// Parse a Prisma Schema Language string and return the pivot [`Schema`].
///
/// Returns [`ImportError::Parse`] if the input is not valid PSL, or
/// [`ImportError::Schema`] if the schema is structurally invalid: an integer
/// literal that does not fit in 64 bits, or a field that references a model
/// (or any type) that does not exist.
pub fn parse_schema(input: &str) -> (r: Result<Schema, ImportError>)
    ensures
        import_result_matches(r, input@),
{
    let s = chars_of(input);
    let n = s.len();
    let toks = match lex(&s) {
        Ok(t) => t,
        Err(p) => {
            return Err(ImportError::Parse(lex_error(&s, p)));
        },
    };
    proof {
        lemma_lex_wf(s@, 0);
    }
    let doc = match parse_doc(&s, &toks) {
        Ok(d) => d,
        Err(k) => {
            return Err(ImportError::Parse(syntax_error(&s, &toks, k)));
        },
    };
    match first_bad(&s, &toks, &doc.ranges) {
        Some(k) => {
            proof {
                lemma_first_bad(s@, toks@, doc.ranges@);
            }
            let tk = toks[k];
            let lit = string_from(&s, tk.start, tk.end);
            return Err(ImportError::Schema(concat("invalid integer: ", lit.as_str())));
        },
        None => {},
    }
    let names = enum_names(&doc.enums);
    match first_unknown(&doc.models, &doc.models, &doc.views, &names, &doc.aliases) {
        Some((b, f)) => {
            proof {
                assert(doc.models.deep_view()[b as int] == doc.models@[b as int].deep_view());
                assert(doc.models@[b as int].fields.deep_view()[f as int]
                    == doc.models@[b as int].fields@[f as int].deep_view());
            }
            let msg = unknown_type_message(&doc.models[b], &doc.models[b].fields[f]);
            return Err(ImportError::Schema(msg));
        },
        None => {},
    }
    match first_unknown(&doc.views, &doc.models, &doc.views, &names, &doc.aliases) {
        Some((b, f)) => {
            proof {
                assert(doc.views.deep_view()[b as int] == doc.views@[b as int].deep_view());
                assert(doc.views@[b as int].fields.deep_view()[f as int]
                    == doc.views@[b as int].fields@[f as int].deep_view());
            }
            let msg = unknown_type_message(&doc.views[b], &doc.views[b].fields[f]);
            return Err(ImportError::Schema(msg));
        },
        None => {},
    }
    let tables = resolve_models(&doc.models, &names, &doc.aliases);
    let views = resolve_views(&doc.views);
    let enums = resolve_enums(&doc.enums);
    let mut schema = Schema::new(doc.database);
    schema.tables = tables;
    schema.views = views;
    schema.enums = enums;
    Ok(schema)
}

// ── Laws ───────────────────────────────────────────────────────────────────

proof fn lemma_unknown_field_found(
    fields: Seq<SpecRawField>,
    i: int,
    f: int,
    models: Seq<SpecRawModel>,
    views: Seq<SpecRawModel>,
    enums: Seq<Seq<char>>,
    aliases: Seq<SpecRawTypeAlias>,
)
    requires
        0 <= i <= f < fields.len(),
        spec_unknown_field(fields[f], models, views, enums, aliases),
    ensures
        spec_unknown_field_from(fields, i, models, views, enums, aliases) is Some,
    decreases f - i,
{
    if !spec_unknown_field(fields[i], models, views, enums, aliases) {
        lemma_unknown_field_found(fields, i + 1, f, models, views, enums, aliases);
    }
}

pub(crate) proof fn lemma_unknown_block_found(
    blocks: Seq<SpecRawModel>,
    c: int,
    b: int,
    f: int,
    models: Seq<SpecRawModel>,
    views: Seq<SpecRawModel>,
    enums: Seq<Seq<char>>,
    aliases: Seq<SpecRawTypeAlias>,
)
    requires
        0 <= c <= b < blocks.len(),
        0 <= f < blocks[b].fields.len(),
        spec_unknown_field(blocks[b].fields[f], models, views, enums, aliases),
    ensures
        spec_first_unknown_from(blocks, c, models, views, enums, aliases) is Some,
    decreases b - c,
{
    if c == b {
        lemma_unknown_field_found(blocks[b].fields, 0, f, models, views, enums, aliases);
    } else if spec_unknown_field_from(blocks[c].fields, 0, models, views, enums, aliases) is None {
        lemma_unknown_block_found(blocks, c + 1, b, f, models, views, enums, aliases);
    }
}

/// A schema in which some model or view field references a type that the
/// schema does not define (no Prisma scalar, enum, model, view or type alias of
/// that name) is rejected with a schema error.
pub proof fn law_unknown_type_rejected(input: Seq<char>, in_views: bool, b: int, f: int)
    requires
        spec_lex(input) matches Some(t) && spec_parse_doc(input, t) matches Some(d) && ({
            let blocks = if in_views {
                d.views
            } else {
                d.models
            };
            &&& 0 <= b < blocks.len()
            &&& 0 <= f < blocks[b].fields.len()
            &&& spec_unknown_field(
                blocks[b].fields[f],
                d.models,
                d.views,
                spec_enum_names(d.enums),
                d.aliases,
            )
        }),
    ensures
        spec_import(input) matches Err(SpecImportError::Schema(_)),
{
    let t = spec_lex(input)->0;
    let d = spec_parse_doc(input, t)->0;
    let es = spec_enum_names(d.enums);
    if in_views {
        lemma_unknown_block_found(d.views, 0, b, f, d.models, d.views, es, d.aliases);
    } else {
        lemma_unknown_block_found(d.models, 0, b, f, d.models, d.views, es, d.aliases);
    }
}

} // verus!
