//! What reading a schema's text gives: tokens, values, fields, attributes,
//! blocks and the document they make up.
use vstd::prelude::*;
use super::ast::{
    spec_as_string_array, spec_find_attr, spec_first_positional, spec_named, spec_string_items,
    SpecBlock, SpecConfigField, SpecEnumEntry, SpecRawArg, SpecRawAttr, SpecRawEnum, SpecRawModel,
    SpecRawTypeAlias, SpecRawValue,
};
use super::lexer::{
    ident_end, is_digit, is_ident_char, is_ident_start, lex_from, lex_token, line_end, string_end,
    Tok, TokKind,
};
use super::parser::{
    digit_val, digits_val, lemma_digits_val_nonneg, spec_add_block, spec_block, spec_doc, spec_empty_doc,
    spec_args, spec_attr, spec_bad_int_in, spec_config, spec_enum_body, spec_field, spec_field_attrs, spec_model_entries, spec_first_bad, spec_int_value, spec_parse_doc, spec_parse_int, spec_value, text, tok_is, SpecDoc,
};
use super::resolver::{spec_datasource_kind, spec_map_provider};
use super::{
    lemma_unknown_block_found, spec_enum_names, spec_first_unknown_from, spec_import, spec_resolve_doc, spec_unknown_field,
    spec_unknown_field_from,
};
use crate::pivot::schema::SpecSchema;
use super::ast::SpecRawField;
use super::lexer::spec_lex;
use crate::importer::SpecImportError;
use super::scalar_table::{spec_find_alias, spec_find_prefixed};
use crate::pivot::schema::SpecDatabaseKind;
use crate::text::{digit_char, spec_decimal};

verus! {

// ── Tokens ─────────────────────────────────────────────────────────────────

/// Each punctuation character is a token of one character, of its own kind.
pub proof fn law_punctuation_tokens(s: Seq<char>, i: int)
    requires
        0 <= i < s.len(),
    ensures
        s[i] == '{' ==> lex_token(s, i) == Some((Tok { kind: TokKind::LBrace, start: i as usize, end: (i + 1) as usize }, i + 1)),
        s[i] == '}' ==> lex_token(s, i) == Some((Tok { kind: TokKind::RBrace, start: i as usize, end: (i + 1) as usize }, i + 1)),
        s[i] == '(' ==> lex_token(s, i) == Some((Tok { kind: TokKind::LParen, start: i as usize, end: (i + 1) as usize }, i + 1)),
        s[i] == ')' ==> lex_token(s, i) == Some((Tok { kind: TokKind::RParen, start: i as usize, end: (i + 1) as usize }, i + 1)),
        s[i] == '[' ==> lex_token(s, i) == Some((Tok { kind: TokKind::LBracket, start: i as usize, end: (i + 1) as usize }, i + 1)),
        s[i] == ']' ==> lex_token(s, i) == Some((Tok { kind: TokKind::RBracket, start: i as usize, end: (i + 1) as usize }, i + 1)),
        s[i] == ',' ==> lex_token(s, i) == Some((Tok { kind: TokKind::Comma, start: i as usize, end: (i + 1) as usize }, i + 1)),
        s[i] == ':' ==> lex_token(s, i) == Some((Tok { kind: TokKind::Colon, start: i as usize, end: (i + 1) as usize }, i + 1)),
        s[i] == '=' ==> lex_token(s, i) == Some((Tok { kind: TokKind::Eq, start: i as usize, end: (i + 1) as usize }, i + 1)),
        s[i] == '?' ==> lex_token(s, i) == Some((Tok { kind: TokKind::Question, start: i as usize, end: (i + 1) as usize }, i + 1)),
{
}

proof fn lemma_string_close(s: Seq<char>, i: int)
    ensures
        string_end(s, i) matches Some(e) ==> 0 <= i <= e < s.len() && s[e] == '"',
    decreases s.len() - i,
{
    if 0 <= i < s.len() && s[i] != '"' {
        if s[i] == '\\' {
            if i + 2 <= s.len() {
                lemma_string_close(s, i + 2);
            }
        } else {
            lemma_string_close(s, i + 1);
        }
    }
}

proof fn lemma_ident_run(s: Seq<char>, i: int)
    requires
        0 <= i <= s.len(),
    ensures
        i <= ident_end(s, i) <= s.len(),
        forall|k: int| i <= k < ident_end(s, i) ==> is_ident_char(#[trigger] s[k]),
        ident_end(s, i) == s.len() || !is_ident_char(s[ident_end(s, i)]),
    decreases s.len() - i,
{
    if i < s.len() && is_ident_char(s[i]) {
        lemma_ident_run(s, i + 1);
    }
}

/// An identifier is the longest run of letters, digits and `_` that starts
/// with a letter or `_`; `@name` is a field attribute and `@@name` a block
/// attribute, each spanning its path without the `@`s; a string literal spans
/// the text between its quotes.
pub proof fn law_word_tokens(s: Seq<char>, i: int)
    requires
        0 <= i < s.len() <= usize::MAX,
    ensures
        is_ident_start(s[i]) ==> (lex_token(s, i) matches Some((tk, e)) && tk.kind
            == TokKind::Ident && tk.start == i && tk.end == e && i < e <= s.len() && (forall|k: int|
            i <= k < e ==> is_ident_char(#[trigger] s[k])) && (e == s.len() || !is_ident_char(
            s[e],
        ))),
        s[i] == '"' ==> (lex_token(s, i) matches Some((tk, e)) ==> tk.kind == TokKind::Str
            && tk.start == i + 1 && s[tk.end as int] == '"' && e == tk.end + 1),
        s[i] == '@' && i + 1 < s.len() && s[i + 1] == '@' ==> (lex_token(s, i) matches Some(
            (tk, e),
        ) ==> tk.kind == TokKind::BlockAttr && tk.start == i + 2),
        s[i] == '@' && !(i + 1 < s.len() && s[i + 1] == '@') ==> (lex_token(s, i) matches Some(
            (tk, e),
        ) ==> tk.kind == TokKind::Attr && tk.start == i + 1),
{
    lemma_ident_run(s, i + 1);
    if s[i] == '"' {
        lemma_string_close(s, i + 1);
    }
    if is_ident_start(s[i]) {
        let e = ident_end(s, i + 1);
        assert forall|k: int| i <= k < e implies is_ident_char(#[trigger] s[k]) by {
            if k > i {
                assert(is_ident_char(s[k]));
            }
        }
    }
}

proof fn lemma_line_end_at(s: Seq<char>, j: int, e: int)
    requires
        0 <= j <= e <= s.len(),
        forall|k: int| j <= k < e ==> s[k] != '\n',
        e == s.len() || s[e] == '\n',
    ensures
        line_end(s, j) == e,
    decreases e - j,
{
    if j < e {
        lemma_line_end_at(s, j + 1, e);
    }
}

/// Spaces, tabs, newlines and carriage returns only separate tokens, and a
/// `//` comment runs to the end of its line: skipping either leaves the
/// tokens that follow unchanged.
pub proof fn law_whitespace_and_comments(s: Seq<char>, i: int)
    requires
        0 <= i < s.len(),
    ensures
        s[i] == ' ' || s[i] == '\t' || s[i] == '\n' || s[i] == '\r' ==> lex_from(s, i) == lex_from(
            s,
            i + 1,
        ),
        forall|e: int|
            i + 2 <= e <= s.len() && s[i] == '/' && s[i + 1] == '/' && (forall|k: int|
                i + 2 <= k < e ==> s[k] != '\n') && (e == s.len() || s[e] == '\n') ==> #[trigger] lex_from(
                s,
                e,
            ) == lex_from(s, i),
{
    assert forall|e: int|
        i + 2 <= e <= s.len() && s[i] == '/' && s[i + 1] == '/' && (forall|k: int|
            i + 2 <= k < e ==> s[k] != '\n') && (e == s.len() || s[e] == '\n') implies #[trigger] lex_from(
        s,
        e,
    ) == lex_from(s, i) by {
        lemma_line_end_at(s, i + 2, e);
    }
}

// ── Values ─────────────────────────────────────────────────────────────────

/// An integer literal (digits, perhaps after a `-`) denotes its signed decimal
/// value, and is read as that `i64` exactly when the value fits in one.
pub proof fn law_integer_literals(d: Seq<char>)
    ensures
        ({
            let v: int = if d.len() > 0 && d[0] == '-' {
                -digits_val(d.drop_first())
            } else {
                digits_val(d)
            };
            &&& (spec_parse_int(d) is Some <==> i64::MIN <= v <= i64::MAX)
            &&& spec_parse_int(d) matches Some(n) ==> n == v
            &&& spec_int_value(d) == match spec_parse_int(d) {
                Some(n) => SpecRawValue::Int(n),
                None => SpecRawValue::BadInt(d),
            }
        }),
{
    if d.len() > 0 && d[0] == '-' {
        lemma_digits_val_nonneg(d.drop_first());
    } else {
        lemma_digits_val_nonneg(d);
    }
}

/// A value is read by the kind of its first token: a string literal as that
/// string, an integer literal by its value (or kept as written when it does
/// not fit), a decimal as written, an identifier followed by `(` as a call of
/// that name, any other identifier as itself, and `[` as a list.
pub proof fn law_value_kinds(s: Seq<char>, t: Seq<Tok>, i: int)
    requires
        0 <= i < t.len(),
    ensures
        t[i].kind == TokKind::Str ==> spec_value(s, t, i) == Some(
            (SpecRawValue::Str(text(s, t, i)), i + 1),
        ),
        t[i].kind == TokKind::Int ==> spec_value(s, t, i) == Some(
            (spec_int_value(text(s, t, i)), i + 1),
        ),
        t[i].kind == TokKind::Float ==> spec_value(s, t, i) == Some(
            (SpecRawValue::Float(text(s, t, i)), i + 1),
        ),
        t[i].kind == TokKind::Ident && !tok_is(t, i + 1, TokKind::LParen) ==> spec_value(s, t, i)
            == Some((SpecRawValue::Ident(text(s, t, i)), i + 1)),
        t[i].kind == TokKind::Ident && tok_is(t, i + 1, TokKind::LParen) ==> (spec_value(s, t, i)
            matches Some((v, _)) ==> v matches SpecRawValue::Call(n, _) && n == text(s, t, i)),
        t[i].kind == TokKind::LBracket ==> (spec_value(s, t, i) matches Some((v, _)) ==> v is Array),
        spec_value(s, t, i) is Some ==> t[i].kind == TokKind::Str || t[i].kind == TokKind::Int
            || t[i].kind == TokKind::Float || t[i].kind == TokKind::Ident || t[i].kind
            == TokKind::LBracket,
{
}

/// The decimal text that messages give a number is all digits, and reads
/// back as that number.
pub proof fn law_decimal_reads_back(n: nat)
    ensures
        forall|k: int| 0 <= k < spec_decimal(n).len() ==> is_digit(#[trigger] spec_decimal(n)[k]),
        digits_val(spec_decimal(n)) == n,
    decreases n,
{
    if n < 10 {
        assert(digit_char(n) as int == 48 + n);
        assert(is_digit(digit_char(n)));
        assert(digit_val(digit_char(n)) == n);
        assert(spec_decimal(n).drop_last() =~= Seq::<char>::empty());
        assert(digits_val(spec_decimal(n)) == digits_val(Seq::<char>::empty()) * 10 + digit_val(
            digit_char(n),
        ));
    } else {
        law_decimal_reads_back(n / 10);
        let d = (n % 10) as nat;
        assert(digit_char(d) as int == 48 + d);
        let t = spec_decimal(n);
        assert(t.drop_last() == spec_decimal(n / 10));
        assert forall|k: int| 0 <= k < t.len() implies is_digit(#[trigger] t[k]) by {
            if k < t.len() - 1 {
                assert(t[k] == spec_decimal(n / 10)[k]);
            }
        }
        assert(digit_val(digit_char(d)) == d);
        assert(digits_val(t) == digits_val(t.drop_last()) * 10 + digit_val(t.last()));
        assert(n == (n / 10) * 10 + n % 10);
    }
}

// ── Integers that do not fit ───────────────────────────────────────────────

/// Whether token `k` is an integer literal whose value does not fit in an `i64`.
pub open spec fn spec_oversized(s: Seq<char>, t: Seq<Tok>, k: int) -> bool {
    0 <= k < t.len() && t[k].kind == TokKind::Int && spec_parse_int(text(s, t, k)) is None
}

proof fn lemma_bad_int_found(s: Seq<char>, t: Seq<Tok>, lo: int, hi: int)
    requires
        0 <= lo,
    ensures
        spec_bad_int_in(s, t, lo, hi) matches Some(b) ==> spec_oversized(s, t, b) && lo <= b < hi,
        (exists|k: int| lo <= k < hi && #[trigger] spec_oversized(s, t, k)) ==> spec_bad_int_in(
            s,
            t,
            lo,
            hi,
        ) is Some,
    decreases hi - lo,
{
    if lo < hi && lo < t.len() {
        lemma_bad_int_found(s, t, lo + 1, hi);
        if exists|k: int| lo <= k < hi && #[trigger] spec_oversized(s, t, k) {
            let k = choose|k: int| lo <= k < hi && #[trigger] spec_oversized(s, t, k);
            if k > lo && !spec_oversized(s, t, lo) {
                assert(lo + 1 <= k < hi && spec_oversized(s, t, k));
            }
        }
    }
}

proof fn lemma_first_bad_found(s: Seq<char>, t: Seq<Tok>, ranges: Seq<(usize, usize)>)
    ensures
        spec_first_bad(s, t, ranges) matches Some(b) ==> spec_oversized(s, t, b) && exists|q: int|
            0 <= q < ranges.len() && (#[trigger] ranges[q]).0 <= b < ranges[q].1,
        (exists|q: int, k: int|
            #![trigger ranges[q], spec_oversized(s, t, k)]
            0 <= q < ranges.len() && ranges[q].0 <= k < ranges[q].1 && spec_oversized(s, t, k)) ==> spec_first_bad(s, t, ranges) is Some,
    decreases ranges.len(),
{
    if ranges.len() > 0 {
        lemma_bad_int_found(s, t, ranges[0].0 as int, ranges[0].1 as int);
        lemma_first_bad_found(s, t, ranges.drop_first());
        if let Some(b) = spec_first_bad(s, t, ranges) {
            if spec_bad_int_in(s, t, ranges[0].0 as int, ranges[0].1 as int) is None {
                let rest = ranges.drop_first();
                let q = choose|q: int| 0 <= q < rest.len() && (#[trigger] rest[q]).0 <= b < rest[q].1;
                assert(ranges[q + 1] == rest[q]);
            } else {
                assert(ranges[0].0 <= b < ranges[0].1);
            }
        }
        if exists|q: int, k: int|
            #![trigger ranges[q], spec_oversized(s, t, k)]
            0 <= q < ranges.len() && ranges[q].0 <= k < ranges[q].1 && spec_oversized(s, t, k) {
            let (q, k) = choose|q: int, k: int|
                #![trigger ranges[q], spec_oversized(s, t, k)]
                0 <= q < ranges.len() && ranges[q].0 <= k < ranges[q].1 && spec_oversized(s, t, k);
            if q == 0 {
                assert(ranges[0].0 <= k < ranges[0].1 && spec_oversized(s, t, k));
            } else if spec_bad_int_in(s, t, ranges[0].0 as int, ranges[0].1 as int) is None {
                let rest = ranges.drop_first();
                assert(rest[q - 1] == ranges[q]);
                assert(0 <= q - 1 < rest.len() && rest[q - 1].0 <= k < rest[q - 1].1
                    && spec_oversized(s, t, k));
            }
        }
    }
}

/// A schema with an integer literal, inside one of its blocks, that does not
/// fit in 64 bits is rejected with a schema error `invalid integer: <n>` that
/// names such a literal.
pub proof fn law_oversized_integer_rejected(input: Seq<char>, q: int, k: int)
    requires
        spec_lex(input) matches Some(t) && spec_parse_doc(input, t) matches Some(d) && 0 <= q
            < d.ranges.len() && d.ranges[q].0 <= k < d.ranges[q].1 && spec_oversized(input, t, k),
    ensures
        spec_import(input) matches Err(SpecImportError::Schema(m)) && exists|b: int|
            spec_oversized(input, spec_lex(input)->0, b) && m == "invalid integer: "@ + text(
                input,
                spec_lex(input)->0,
                b,
            ),
{
    let t = spec_lex(input)->0;
    let d = spec_parse_doc(input, t)->0;
    lemma_first_bad_found(input, t, d.ranges);
    assert(0 <= q < d.ranges.len() && d.ranges[q].0 <= k < d.ranges[q].1 && spec_oversized(
        input,
        t,
        k,
    ));
    let b = spec_first_bad(input, t, d.ranges)->0;
    assert(spec_oversized(input, t, b));
}

proof fn lemma_unknown_field_sound(
    fields: Seq<SpecRawField>,
    i: int,
    models: Seq<SpecRawModel>,
    views: Seq<SpecRawModel>,
    enums: Seq<Seq<char>>,
    aliases: Seq<SpecRawTypeAlias>,
)
    ensures
        spec_unknown_field_from(fields, i, models, views, enums, aliases) matches Some(f) ==> 0 <= f
            < fields.len() && spec_unknown_field(fields[f], models, views, enums, aliases),
    decreases fields.len() - i,
{
    if 0 <= i < fields.len() {
        lemma_unknown_field_sound(fields, i + 1, models, views, enums, aliases);
    }
}

proof fn lemma_first_unknown_sound(
    blocks: Seq<SpecRawModel>,
    b: int,
    models: Seq<SpecRawModel>,
    views: Seq<SpecRawModel>,
    enums: Seq<Seq<char>>,
    aliases: Seq<SpecRawTypeAlias>,
)
    ensures
        spec_first_unknown_from(blocks, b, models, views, enums, aliases) matches Some((x, f)) ==> 0
            <= x < blocks.len() && 0 <= f < blocks[x].fields.len() && spec_unknown_field(
            blocks[x].fields[f],
            models,
            views,
            enums,
            aliases,
        ),
    decreases blocks.len() - b,
{
    if 0 <= b < blocks.len() {
        lemma_unknown_field_sound(blocks[b].fields, 0, models, views, enums, aliases);
        lemma_first_unknown_sound(blocks, b + 1, models, views, enums, aliases);
    }
}

/// A schema that can be read, whose blocks hold no integer literal too large
/// for 64 bits, and whose model and view fields all reference types it
/// defines, is imported as its resolved schema: the tables of its models, its
/// views and its enums, for the database its datasource selects.
pub proof fn law_import_succeeds(input: Seq<char>)
    requires
        spec_lex(input) matches Some(t) && spec_parse_doc(input, t) matches Some(d) && (forall|
            q: int,
            k: int,
        |
            #![trigger d.ranges[q], spec_oversized(input, t, k)]
            0 <= q < d.ranges.len() && d.ranges[q].0 <= k < d.ranges[q].1 ==> !spec_oversized(
                input,
                t,
                k,
            )) && (forall|b: int, f: int|
            0 <= b < d.models.len() && 0 <= f < d.models[b].fields.len() ==> !spec_unknown_field(
                #[trigger] d.models[b].fields[f],
                d.models,
                d.views,
                spec_enum_names(d.enums),
                d.aliases,
            )) && (forall|b: int, f: int|
            0 <= b < d.views.len() && 0 <= f < d.views[b].fields.len() ==> !spec_unknown_field(
                #[trigger] d.views[b].fields[f],
                d.models,
                d.views,
                spec_enum_names(d.enums),
                d.aliases,
            )),
    ensures
        spec_import(input) == Ok::<SpecSchema, SpecImportError>(
            spec_resolve_doc(spec_parse_doc(input, spec_lex(input)->0)->0),
        ),
{
    let t = spec_lex(input)->0;
    let d = spec_parse_doc(input, t)->0;
    let es = spec_enum_names(d.enums);
    lemma_first_bad_found(input, t, d.ranges);
    if let Some(b) = spec_first_bad(input, t, d.ranges) {
        let q = choose|q: int| 0 <= q < d.ranges.len() && (#[trigger] d.ranges[q]).0 <= b < d.ranges[q].1;
        assert(!spec_oversized(input, t, b));
    }
    lemma_first_unknown_sound(d.models, 0, d.models, d.views, es, d.aliases);
    lemma_first_unknown_sound(d.views, 0, d.models, d.views, es, d.aliases);
    if let Some((x, f)) = spec_first_unknown_from(d.models, 0, d.models, d.views, es, d.aliases) {
        assert(!spec_unknown_field(d.models[x].fields[f], d.models, d.views, es, d.aliases));
    }
    if let Some((x, f)) = spec_first_unknown_from(d.views, 0, d.models, d.views, es, d.aliases) {
        assert(!spec_unknown_field(d.views[x].fields[f], d.models, d.views, es, d.aliases));
    }
}

/// A schema whose blocks hold no integer literal too large for 64 bits, and
/// in which some model or view field references a type that the schema does
/// not define, is rejected with the schema error `unknown type <T> on field
/// <Block>.<field>` for such a field.
pub proof fn law_unknown_type_message(input: Seq<char>, in_views: bool, b: int, f: int)
    requires
        spec_lex(input) matches Some(t) && spec_parse_doc(input, t) matches Some(d) && (forall|
            q: int,
            k: int,
        |
            #![trigger d.ranges[q], spec_oversized(input, t, k)]
            0 <= q < d.ranges.len() && d.ranges[q].0 <= k < d.ranges[q].1 ==> !spec_oversized(
                input,
                t,
                k,
            )) && ({
            let blocks = if in_views {
                d.views
            } else {
                d.models
            };
            &&& 0 <= b < blocks.len()
            &&& 0 <= f < blocks[b].fields.len()
            &&& spec_unknown_field(
                blocks[b].fields[f],
                d.models,
                d.views,
                spec_enum_names(d.enums),
                d.aliases,
            )
        }),
    ensures
        ({
            let d = spec_parse_doc(input, spec_lex(input)->0)->0;
            spec_import(input) matches Err(SpecImportError::Schema(m)) && exists|blk: SpecRawModel, fld: SpecRawField|
                (d.models.contains(blk) || d.views.contains(blk)) && blk.fields.contains(fld)
                    && spec_unknown_field(fld, d.models, d.views, spec_enum_names(d.enums), d.aliases)
                    && m == "unknown type "@ + fld.base_type + " on field "@ + blk.name + "."@ + fld.name
        }),
{
    let t = spec_lex(input)->0;
    let d = spec_parse_doc(input, t)->0;
    let es = spec_enum_names(d.enums);
    lemma_first_bad_found(input, t, d.ranges);
    if let Some(x) = spec_first_bad(input, t, d.ranges) {
        let q = choose|q: int| 0 <= q < d.ranges.len() && (#[trigger] d.ranges[q]).0 <= x < d.ranges[q].1;
        assert(!spec_oversized(input, t, x));
    }
    lemma_first_unknown_sound(d.models, 0, d.models, d.views, es, d.aliases);
    lemma_first_unknown_sound(d.views, 0, d.models, d.views, es, d.aliases);
    if in_views {
        lemma_unknown_block_found(d.views, 0, b, f, d.models, d.views, es, d.aliases);
    } else {
        lemma_unknown_block_found(d.models, 0, b, f, d.models, d.views, es, d.aliases);
    }
    match spec_first_unknown_from(d.models, 0, d.models, d.views, es, d.aliases) {
        Some((x, g)) => {
            assert(d.models.contains(d.models[x]));
            assert(d.models[x].fields.contains(d.models[x].fields[g]));
        },
        None => {
            let (x, g) = spec_first_unknown_from(d.views, 0, d.models, d.views, es, d.aliases)->0;
            assert(d.views.contains(d.views[x]));
            assert(d.views[x].fields.contains(d.views[x].fields[g]));
        },
    }
}

// ── Fields ─────────────────────────────────────────────────────────────────

/// A field declaration `name Type` takes its name and type from its first two
/// identifiers (`Unsupported("..")` keeps the quoted text instead of a type).
/// The type is optional exactly when a `?` follows it, and a list exactly when
/// `[]` follows it.
pub proof fn law_field_modifiers(s: Seq<char>, t: Seq<Tok>, i: int)
    ensures
        spec_field(s, t, i) matches Some((f, j)) ==> {
            let m = if f.unsupported_type is Some {
                i + 5
            } else {
                i + 2
            };
            &&& tok_is(t, i, TokKind::Ident) && tok_is(t, i + 1, TokKind::Ident)
            &&& f.name == text(s, t, i)
            &&& f.unsupported_type is None ==> f.base_type == text(s, t, i + 1)
            &&& f.unsupported_type is Some ==> text(s, t, i + 1) == "Unsupported"@ && tok_is(
                t,
                i + 3,
                TokKind::Str,
            ) && f.unsupported_type == Some(text(s, t, i + 3))
            &&& f.is_optional == tok_is(t, m, TokKind::Question)
            &&& f.is_array == (tok_is(t, m, TokKind::LBracket) && tok_is(t, m + 1, TokKind::RBracket))
        },
{
}

// ── Attributes and block bodies ───────────────────────────────────────────

/// An attribute takes its path from its token, and its arguments from the
/// list in parentheses that follows it; without one it has no arguments and
/// reading goes on with the next token.
pub proof fn law_attribute_syntax(s: Seq<char>, t: Seq<Tok>, i: int)
    ensures
        spec_attr(s, t, i) matches Some((a, j)) ==> a.path == text(s, t, i) && (!tok_is(
            t,
            i + 1,
            TokKind::LParen,
        ) ==> a.args.len() == 0 && j == i + 1),
        0 <= i < t.len() && tok_is(t, i + 1, TokKind::LParen) ==> (spec_attr(s, t, i) matches Some(
            (a, j),
        ) ==> spec_args(s, t, i + 2, Seq::empty()) == Some((a.args, j))),
{
}

/// In an enum body, an identifier followed by its attributes is a value of
/// that name with those attributes, and a block attribute is kept as an
/// entry; reading goes on after either.
pub proof fn law_enum_body_entries(s: Seq<char>, t: Seq<Tok>, i: int, acc: Seq<SpecEnumEntry>)
    requires
        0 <= i < t.len(),
    ensures
        tok_is(t, i, TokKind::Ident) ==> ({
            match spec_field_attrs(s, t, i + 1, Seq::empty()) {
                Some((attrs, j)) => i < j <= t.len() ==> spec_enum_body(s, t, i, acc)
                    == spec_enum_body(s, t, j, acc.push(SpecEnumEntry::Value(text(s, t, i), attrs))),
                None => true,
            }
        }),
        tok_is(t, i, TokKind::BlockAttr) ==> ({
            match spec_attr(s, t, i) {
                Some((a, j)) => i < j <= t.len() ==> spec_enum_body(s, t, i, acc) == spec_enum_body(
                    s,
                    t,
                    j,
                    acc.push(SpecEnumEntry::Attr(a)),
                ),
                None => true,
            }
        }),
        tok_is(t, i, TokKind::RBrace) ==> spec_enum_body(s, t, i, acc) == Some((acc, i + 1)),
{
}

/// In a model or view body, a field declaration is added to the fields and a
/// block attribute to the block attributes, each after those before it; `}`
/// ends the body.
pub proof fn law_model_body_entries(
    s: Seq<char>,
    t: Seq<Tok>,
    i: int,
    fields: Seq<SpecRawField>,
    battrs: Seq<SpecRawAttr>,
)
    requires
        0 <= i < t.len(),
    ensures
        tok_is(t, i, TokKind::Ident) ==> match spec_field(s, t, i) {
            Some((f, j)) => i < j <= t.len() ==> spec_model_entries(s, t, i, fields, battrs)
                == spec_model_entries(s, t, j, fields.push(f), battrs),
            None => true,
        },
        tok_is(t, i, TokKind::BlockAttr) ==> match spec_attr(s, t, i) {
            Some((a, j)) => i < j <= t.len() ==> spec_model_entries(s, t, i, fields, battrs)
                == spec_model_entries(s, t, j, fields, battrs.push(a)),
            None => true,
        },
        tok_is(t, i, TokKind::RBrace) ==> spec_model_entries(s, t, i, fields, battrs) == Some(
            (fields, battrs, i + 1),
        ),
{
}

/// In a datasource or generator body, `key = value` is an entry with that key
/// and value, and reading goes on after the value.
pub proof fn law_config_entries(s: Seq<char>, t: Seq<Tok>, i: int, acc: Seq<SpecConfigField>)
    requires
        0 <= i < t.len(),
    ensures
        tok_is(t, i, TokKind::Ident) && tok_is(t, i + 1, TokKind::Eq) ==> ({
            match spec_value(s, t, i + 2) {
                Some((v, j)) => i < j <= t.len() ==> spec_config(s, t, i, acc) == spec_config(
                    s,
                    t,
                    j,
                    acc.push(SpecConfigField { key: text(s, t, i), value: v }),
                ),
                None => true,
            }
        }),
        tok_is(t, i, TokKind::RBrace) ==> spec_config(s, t, i, acc) == Some((acc, i + 1)),
{
}

// ── Blocks ─────────────────────────────────────────────────────────────────

/// A block's kind is the keyword that opens it: `datasource`, `generator`,
/// `model`, `view`, `enum` or `type`; a model, view, enum or type alias is
/// named by the identifier after the keyword.
pub proof fn law_block_keywords(s: Seq<char>, t: Seq<Tok>, i: int)
    ensures
        spec_block(s, t, i) matches Some((b, j)) ==> {
            let kw = text(s, t, i);
            &&& (b is Datasource <==> kw == "datasource"@)
            &&& (b is Generator <==> kw == "generator"@)
            &&& (b is Model <==> kw == "model"@)
            &&& (b is View <==> kw == "view"@)
            &&& (b is Enum <==> kw == "enum"@)
            &&& (b is TypeAlias <==> kw == "type"@)
            &&& b matches SpecBlock::Model(m) ==> m.name == text(s, t, i + 1)
            &&& b matches SpecBlock::View(m) ==> m.name == text(s, t, i + 1)
            &&& b matches SpecBlock::Enum(e) ==> e.name == text(s, t, i + 1)
            &&& b matches SpecBlock::TypeAlias(a) ==> a.name == text(s, t, i + 1) && a.base_type
                == text(s, t, i + 3)
        },
{
    reveal_strlit("datasource");
    reveal_strlit("generator");
    reveal_strlit("model");
    reveal_strlit("view");
    reveal_strlit("enum");
    reveal_strlit("type");
    assert("datasource"@ != "generator"@) by {
        assert("datasource"@[0] != "generator"@[0]);
    }
    assert("datasource"@ != "model"@) by {
        assert("datasource"@[0] != "model"@[0]);
    }
    assert("datasource"@ != "view"@) by {
        assert("datasource"@[0] != "view"@[0]);
    }
    assert("datasource"@ != "enum"@) by {
        assert("datasource"@[0] != "enum"@[0]);
    }
    assert("datasource"@ != "type"@) by {
        assert("datasource"@[0] != "type"@[0]);
    }
    assert("generator"@ != "model"@) by {
        assert("generator"@[0] != "model"@[0]);
    }
    assert("generator"@ != "view"@) by {
        assert("generator"@[0] != "view"@[0]);
    }
    assert("generator"@ != "enum"@) by {
        assert("generator"@[0] != "enum"@[0]);
    }
    assert("generator"@ != "type"@) by {
        assert("generator"@[0] != "type"@[0]);
    }
    assert("model"@ != "view"@) by {
        assert("model"@[0] != "view"@[0]);
    }
    assert("model"@ != "enum"@) by {
        assert("model"@[0] != "enum"@[0]);
    }
    assert("model"@ != "type"@) by {
        assert("model"@[0] != "type"@[0]);
    }
    assert("view"@ != "enum"@) by {
        assert("view"@[0] != "enum"@[0]);
    }
    assert("view"@ != "type"@) by {
        assert("view"@[0] != "type"@[0]);
    }
    assert("enum"@ != "type"@) by {
        assert("enum"@[0] != "type"@[0]);
    }
}

// ── Datasource ─────────────────────────────────────────────────────────────

/// Whether a datasource entry gives a `provider` as a string or an identifier.
pub open spec fn spec_is_provider_entry(c: SpecConfigField) -> bool {
    c.key == "provider"@ && (c.value is Str || c.value is Ident)
}

/// The text of a string or identifier value.
pub open spec fn spec_word_of(v: SpecRawValue) -> Seq<char> {
    match v {
        SpecRawValue::Str(x) => x,
        SpecRawValue::Ident(x) => x,
        _ => Seq::empty(),
    }
}

/// A datasource selects the database that its first `provider` entry (a
/// string or an identifier) names, and PostgreSQL when it has no such entry.
pub proof fn law_datasource_provider(cfg: Seq<SpecConfigField>)
    ensures
        forall|p: int|
            0 <= p < cfg.len() && spec_is_provider_entry(#[trigger] cfg[p]) && (forall|q: int|
                0 <= q < p ==> !spec_is_provider_entry(#[trigger] cfg[q])) ==> spec_datasource_kind(
                cfg,
            ) == spec_map_provider(spec_word_of(cfg[p].value)),
        (forall|q: int| 0 <= q < cfg.len() ==> !spec_is_provider_entry(#[trigger] cfg[q]))
            ==> spec_datasource_kind(cfg) == SpecDatabaseKind::PostgreSql,
    decreases cfg.len(),
{
    if cfg.len() > 0 {
        let rest = cfg.drop_first();
        law_datasource_provider(rest);
        assert forall|p: int|
            0 <= p < cfg.len() && spec_is_provider_entry(#[trigger] cfg[p]) && (forall|q: int|
                0 <= q < p ==> !spec_is_provider_entry(#[trigger] cfg[q])) implies spec_datasource_kind(
            cfg,
        ) == spec_map_provider(spec_word_of(cfg[p].value)) by {
            if p > 0 {
                assert(!spec_is_provider_entry(cfg[0]));
                assert(rest[p - 1] == cfg[p]);
                assert forall|q: int| 0 <= q < p - 1 implies !spec_is_provider_entry(
                    #[trigger] rest[q],
                ) by {
                    assert(rest[q] == cfg[q + 1]);
                }
            }
        }
        if forall|q: int| 0 <= q < cfg.len() ==> !spec_is_provider_entry(#[trigger] cfg[q]) {
            assert(!spec_is_provider_entry(cfg[0]));
            assert forall|q: int| 0 <= q < rest.len() implies !spec_is_provider_entry(
                #[trigger] rest[q],
            ) by {
                assert(rest[q] == cfg[q + 1]);
            }
        }
    }
}


// ── Reading attributes and arguments ──────────────────────────────────────

/// An attribute is looked up by its path among a field's or block's
/// attributes: the first one with that path is found, and none exactly when
/// no attribute has it. The same holds of the first attribute whose path
/// starts with a given prefix (such as `db.`).
pub proof fn law_attribute_lookup(attrs: Seq<SpecRawAttr>, path: Seq<char>, prefix: Seq<char>)
    ensures
        spec_find_attr(attrs, path) matches Some(a) ==> exists|k: int|
            0 <= k < attrs.len() && attrs[k] == a && a.path == path && forall|q: int|
                0 <= q < k ==> (#[trigger] attrs[q]).path != path,
        spec_find_attr(attrs, path) is None <==> forall|k: int|
            0 <= k < attrs.len() ==> (#[trigger] attrs[k]).path != path,
        spec_find_prefixed(attrs, prefix) matches Some(a) ==> exists|k: int|
            0 <= k < attrs.len() && attrs[k] == a && prefix.is_prefix_of(a.path) && forall|q: int|
                0 <= q < k ==> !prefix.is_prefix_of((#[trigger] attrs[q]).path),
        spec_find_prefixed(attrs, prefix) is None <==> forall|k: int|
            0 <= k < attrs.len() ==> !prefix.is_prefix_of((#[trigger] attrs[k]).path),
    decreases attrs.len(),
{
    if attrs.len() > 0 {
        let rest = attrs.drop_first();
        law_attribute_lookup(rest, path, prefix);
        assert forall|k: int| 0 < k < attrs.len() implies attrs[k] == rest[k - 1] by {}
        if let Some(a) = spec_find_attr(attrs, path) {
            if attrs[0].path != path {
                let k = choose|k: int|
                    0 <= k < rest.len() && rest[k] == a && a.path == path && forall|q: int|
                        0 <= q < k ==> (#[trigger] rest[q]).path != path;
                assert(attrs[k + 1] == a);
                assert forall|q: int| 0 <= q < k + 1 implies (#[trigger] attrs[q]).path != path by {
                    if q > 0 {
                        assert(attrs[q] == rest[q - 1]);
                    }
                }
            } else {
                assert(attrs[0] == a);
            }
        }
        if let Some(a) = spec_find_prefixed(attrs, prefix) {
            if !prefix.is_prefix_of(attrs[0].path) {
                let k = choose|k: int|
                    0 <= k < rest.len() && rest[k] == a && prefix.is_prefix_of(a.path) && forall|
                        q: int,
                    | 0 <= q < k ==> !prefix.is_prefix_of((#[trigger] rest[q]).path);
                assert(attrs[k + 1] == a);
                assert forall|q: int| 0 <= q < k + 1 implies !prefix.is_prefix_of(
                    (#[trigger] attrs[q]).path,
                ) by {
                    if q > 0 {
                        assert(attrs[q] == rest[q - 1]);
                    }
                }
            } else {
                assert(attrs[0] == a);
            }
        }
    }
}

/// Whether argument `a` is named `key`.
pub open spec fn spec_arg_named(a: SpecRawArg, key: Seq<char>) -> bool {
    a matches SpecRawArg::Named(k, _) && k == key
}

/// A named argument is read from the first argument with that name, and is
/// absent exactly when no argument has it; the first positional argument is
/// the first argument that is not named, and is absent exactly when every
/// argument is named.
pub proof fn law_argument_lookup(args: Seq<SpecRawArg>, key: Seq<char>)
    ensures
        spec_named(args, key) matches Some(v) ==> exists|k: int|
            0 <= k < args.len() && args[k] == SpecRawArg::Named(key, v) && forall|q: int|
                0 <= q < k ==> !spec_arg_named(#[trigger] args[q], key),
        spec_named(args, key) is None <==> forall|k: int|
            0 <= k < args.len() ==> !spec_arg_named(#[trigger] args[k], key),
        spec_first_positional(args) matches Some(v) ==> exists|k: int|
            0 <= k < args.len() && args[k] == SpecRawArg::Positional(v) && forall|q: int|
                0 <= q < k ==> (#[trigger] args[q]) is Named,
        spec_first_positional(args) is None <==> forall|k: int|
            0 <= k < args.len() ==> (#[trigger] args[k]) is Named,
    decreases args.len(),
{
    if args.len() > 0 {
        let rest = args.drop_first();
        law_argument_lookup(rest, key);
        assert forall|k: int| 0 < k < args.len() implies args[k] == rest[k - 1] by {}
        if let Some(v) = spec_named(args, key) {
            if !spec_arg_named(args[0], key) {
                let k = choose|k: int|
                    0 <= k < rest.len() && rest[k] == SpecRawArg::Named(key, v) && forall|q: int|
                        0 <= q < k ==> !spec_arg_named(#[trigger] rest[q], key);
                assert(args[k + 1] == rest[k]);
                assert forall|q: int| 0 <= q < k + 1 implies !spec_arg_named(#[trigger] args[q], key) by {
                    if q > 0 {
                        assert(args[q] == rest[q - 1]);
                    }
                }
            }
        }
        if let Some(v) = spec_first_positional(args) {
            if args[0] is Named {
                let k = choose|k: int|
                    0 <= k < rest.len() && rest[k] == SpecRawArg::Positional(v) && forall|q: int|
                        0 <= q < k ==> (#[trigger] rest[q]) is Named;
                assert(args[k + 1] == rest[k]);
                assert forall|q: int| 0 <= q < k + 1 implies (#[trigger] args[q]) is Named by {
                    if q > 0 {
                        assert(args[q] == rest[q - 1]);
                    }
                }
            }
        }
    }
}

/// A type alias is looked up by name: the last alias declared with that name
/// is in effect, and none exactly when no alias has it.
pub proof fn law_alias_lookup(aliases: Seq<SpecRawTypeAlias>, t: Seq<char>)
    ensures
        spec_find_alias(aliases, t) matches Some(a) ==> exists|k: int|
            0 <= k < aliases.len() && aliases[k] == a && a.name == t && forall|q: int|
                k < q < aliases.len() ==> (#[trigger] aliases[q]).name != t,
        spec_find_alias(aliases, t) is None <==> forall|k: int|
            0 <= k < aliases.len() ==> (#[trigger] aliases[k]).name != t,
    decreases aliases.len(),
{
    if aliases.len() > 0 {
        let rest = aliases.drop_last();
        law_alias_lookup(rest, t);
        assert forall|k: int| 0 <= k < rest.len() implies aliases[k] == rest[k] by {}
        if let Some(a) = spec_find_alias(aliases, t) {
            if aliases.last().name != t {
                let k = choose|k: int|
                    0 <= k < rest.len() && rest[k] == a && a.name == t && forall|q: int|
                        k < q < rest.len() ==> (#[trigger] rest[q]).name != t;
                assert(aliases[k] == a);
                assert forall|q: int| k < q < aliases.len() implies (#[trigger] aliases[q]).name != t by {
                    if q < rest.len() {
                        assert(aliases[q] == rest[q]);
                    }
                }
            } else {
                assert(aliases[aliases.len() - 1] == a);
            }
        }
    }
}


/// Whether a value is an identifier or a string.
pub open spec fn spec_is_word(v: SpecRawValue) -> bool {
    v is Ident || v is Str
}

/// A list of names (`[a, b]` or `["a", "b"]`) gives its names in order;
/// items that are neither identifiers nor strings are skipped, and a value
/// that is no list gives no names.
pub proof fn law_name_lists(v: SpecRawValue)
    ensures
        !(v is Array) ==> spec_as_string_array(v).len() == 0,
        v matches SpecRawValue::Array(items) ==> {
            &&& (forall|k: int| 0 <= k < items.len() ==> spec_is_word(#[trigger] items[k])) ==> {
                &&& spec_as_string_array(v).len() == items.len()
                &&& forall|k: int|
                    0 <= k < items.len() ==> (#[trigger] spec_as_string_array(v)[k]) == spec_word_of(
                        items[k],
                    )
            }
            &&& (forall|k: int| 0 <= k < items.len() ==> !spec_is_word(#[trigger] items[k]))
                ==> spec_as_string_array(v).len() == 0
        },
{
    if let SpecRawValue::Array(items) = v {
        lemma_string_items(items);
    }
}

proof fn lemma_string_items(items: Seq<SpecRawValue>)
    ensures
        (forall|k: int| 0 <= k < items.len() ==> spec_is_word(#[trigger] items[k])) ==> {
            &&& spec_string_items(items).len() == items.len()
            &&& forall|k: int|
                0 <= k < items.len() ==> (#[trigger] spec_string_items(items)[k]) == spec_word_of(
                    items[k],
                )
        },
        (forall|k: int| 0 <= k < items.len() ==> !spec_is_word(#[trigger] items[k]))
            ==> spec_string_items(items).len() == 0,
    decreases items.len(),
{
    if items.len() > 0 {
        let rest = items.drop_last();
        lemma_string_items(rest);
        assert forall|k: int| 0 <= k < rest.len() implies rest[k] == items[k] by {}
        if forall|k: int| 0 <= k < items.len() ==> spec_is_word(#[trigger] items[k]) {
            assert(spec_is_word(items[items.len() - 1]));
            assert forall|k: int| 0 <= k < rest.len() implies spec_is_word(#[trigger] rest[k]) by {
                assert(rest[k] == items[k]);
            }
        }
        if forall|k: int| 0 <= k < items.len() ==> !spec_is_word(#[trigger] items[k]) {
            assert(!spec_is_word(items[items.len() - 1]));
            assert forall|k: int| 0 <= k < rest.len() implies !spec_is_word(#[trigger] rest[k]) by {
                assert(rest[k] == items[k]);
            }
        }
    }
}


// ── The document ───────────────────────────────────────────────────────────

/// The blocks read from token `i` on, in order, as far as they can be read.
pub open spec fn spec_blocks_from(s: Seq<char>, t: Seq<Tok>, i: int) -> Seq<SpecBlock>
    decreases t.len() - i,
{
    if i < 0 || i >= t.len() {
        Seq::empty()
    } else {
        match spec_block(s, t, i) {
            Some((b, j)) => if i < j <= t.len() {
                seq![b] + spec_blocks_from(s, t, j)
            } else {
                Seq::empty()
            },
            None => Seq::empty(),
        }
    }
}

/// The entries of the last datasource block among `bs`.
pub open spec fn spec_last_datasource(bs: Seq<SpecBlock>) -> Option<Seq<SpecConfigField>>
    decreases bs.len(),
{
    if bs.len() == 0 {
        None
    } else {
        match spec_last_datasource(bs.drop_first()) {
            Some(c) => Some(c),
            None => match bs[0] {
                SpecBlock::Datasource(c) => Some(c),
                _ => None,
            },
        }
    }
}

/// The models declared by the model blocks among `bs`, in order.
pub open spec fn spec_block_models(bs: Seq<SpecBlock>) -> Seq<SpecRawModel>
    decreases bs.len(),
{
    if bs.len() == 0 {
        Seq::empty()
    } else {
        match bs[0] {
            SpecBlock::Model(m) => seq![m] + spec_block_models(bs.drop_first()),
            _ => spec_block_models(bs.drop_first()),
        }
    }
}

/// The views declared by the view blocks among `bs`, in order.
pub open spec fn spec_block_views(bs: Seq<SpecBlock>) -> Seq<SpecRawModel>
    decreases bs.len(),
{
    if bs.len() == 0 {
        Seq::empty()
    } else {
        match bs[0] {
            SpecBlock::View(m) => seq![m] + spec_block_views(bs.drop_first()),
            _ => spec_block_views(bs.drop_first()),
        }
    }
}

/// The enums declared by the enum blocks among `bs`, in order.
pub open spec fn spec_block_enums(bs: Seq<SpecBlock>) -> Seq<SpecRawEnum>
    decreases bs.len(),
{
    if bs.len() == 0 {
        Seq::empty()
    } else {
        match bs[0] {
            SpecBlock::Enum(e) => seq![e] + spec_block_enums(bs.drop_first()),
            _ => spec_block_enums(bs.drop_first()),
        }
    }
}

/// The type aliases declared by the `type` blocks among `bs`, in order.
pub open spec fn spec_block_aliases(bs: Seq<SpecBlock>) -> Seq<SpecRawTypeAlias>
    decreases bs.len(),
{
    if bs.len() == 0 {
        Seq::empty()
    } else {
        match bs[0] {
            SpecBlock::TypeAlias(a) => seq![a] + spec_block_aliases(bs.drop_first()),
            _ => spec_block_aliases(bs.drop_first()),
        }
    }
}

proof fn lemma_doc_from(s: Seq<char>, t: Seq<Tok>, i: int, d: SpecDoc)
    ensures
        spec_doc(s, t, i, d) matches Some(d2) ==> {
            let bs = spec_blocks_from(s, t, i);
            &&& d2.database == match spec_last_datasource(bs) {
                Some(c) => spec_datasource_kind(c),
                None => d.database,
            }
            &&& d2.models == d.models + spec_block_models(bs)
            &&& d2.views == d.views + spec_block_views(bs)
            &&& d2.enums == d.enums + spec_block_enums(bs)
            &&& d2.aliases == d.aliases + spec_block_aliases(bs)
        },
    decreases t.len() - i,
{
    if 0 <= i < t.len() {
        if let Some((b, j)) = spec_block(s, t, i) {
            if i < j <= t.len() {
                let d1 = spec_add_block(d, b, i, j);
                lemma_doc_from(s, t, j, d1);
                let rest = spec_blocks_from(s, t, j);
                let bs = spec_blocks_from(s, t, i);
                assert(bs == seq![b] + rest);
                assert(bs.drop_first() =~= rest);
                assert(bs[0] == b);
                if let Some(d2) = spec_doc(s, t, i, d) {
                    match b {
                        SpecBlock::Model(m) => {
                            assert(d.models + spec_block_models(bs) =~= d.models.push(m)
                                + spec_block_models(rest));
                        },
                        SpecBlock::View(m) => {
                            assert(d.views + spec_block_views(bs) =~= d.views.push(m)
                                + spec_block_views(rest));
                        },
                        SpecBlock::Enum(e) => {
                            assert(d.enums + spec_block_enums(bs) =~= d.enums.push(e)
                                + spec_block_enums(rest));
                        },
                        SpecBlock::TypeAlias(a) => {
                            assert(d.aliases + spec_block_aliases(bs) =~= d.aliases.push(a)
                                + spec_block_aliases(rest));
                        },
                        _ => {},
                    }
                }
            }
        }
    } else {
        assert(spec_blocks_from(s, t, i) =~= Seq::<SpecBlock>::empty());
        if i == t.len() {
            assert(d.models + Seq::<SpecRawModel>::empty() =~= d.models);
            assert(d.views + Seq::<SpecRawModel>::empty() =~= d.views);
            assert(d.enums + Seq::<SpecRawEnum>::empty() =~= d.enums);
            assert(d.aliases + Seq::<SpecRawTypeAlias>::empty() =~= d.aliases);
        }
    }
}

/// A schema's database is the one its last datasource block selects
/// (PostgreSQL without one); generator blocks change nothing; its models,
/// views, enums and type aliases are those of its model, view, enum and
/// `type` blocks, in order.
pub proof fn law_document_blocks(s: Seq<char>, t: Seq<Tok>)
    ensures
        spec_parse_doc(s, t) matches Some(d) ==> {
            let bs = spec_blocks_from(s, t, 0);
            &&& d.database == match spec_last_datasource(bs) {
                Some(c) => spec_datasource_kind(c),
                None => SpecDatabaseKind::PostgreSql,
            }
            &&& d.models == spec_block_models(bs)
            &&& d.views == spec_block_views(bs)
            &&& d.enums == spec_block_enums(bs)
            &&& d.aliases == spec_block_aliases(bs)
        },
{
    let e = spec_empty_doc();
    lemma_doc_from(s, t, 0, e);
    let bs = spec_blocks_from(s, t, 0);
    assert(e.models + spec_block_models(bs) =~= spec_block_models(bs));
    assert(e.views + spec_block_views(bs) =~= spec_block_views(bs));
    assert(e.enums + spec_block_enums(bs) =~= spec_block_enums(bs));
    assert(e.aliases + spec_block_aliases(bs) =~= spec_block_aliases(bs));
}

} // verus!
