//! The grammar of the Prisma Schema Language, over tokens.
//!
//! ```text
//! schema   := block*
//! block    := ("datasource" | "generator") IDENT "{" (IDENT "=" value)* "}"
//!           | ("model" | "view") IDENT "{" (BLOCK_ATTR args? | field)* "}"
//!           | "enum" IDENT "{" (BLOCK_ATTR args? | IDENT attr*)* "}"
//!           | "type" IDENT "=" IDENT attr*
//! field    := IDENT type attr*
//! type     := "Unsupported" "(" STRING ")" modifier? | IDENT modifier?
//! modifier := "?" | "[" "]"
//! attr     := ATTR args?
//! args     := "(" (arg ("," arg)*)? ")"
//! arg      := IDENT ":" value | value
//! value    := STRING | INT | FLOAT | IDENT args | IDENT | "[" (value ("," value)*)? "]"
//! ```
use vstd::prelude::*;
use super::ast::{
    Block, ConfigField, EnumEntry, RawAttr, RawEnum, RawField, RawModel, RawTypeAlias,
    SpecBlock, SpecConfigField, SpecEnumEntry, SpecRawAttr, SpecRawEnum, SpecRawField,
    SpecRawModel, SpecRawTypeAlias, lemma_raw_args_len, lemma_raw_args_push, lemma_raw_values_len, lemma_raw_values_push, raw_arg_v, raw_args_v, raw_value_v,
    raw_values_v, RawArg, RawValue, SpecRawArg, SpecRawValue,
};
use super::lexer::{is_digit, toks_wf, Tok, TokKind};
use super::resolver::{datasource_kind, spec_datasource_kind};
use crate::pivot::schema::{DatabaseKind, SpecDatabaseKind};
use crate::text::{lemma_dv_empty, lemma_dv_push, string_from, str_eq};

verus! {

pub open spec fn tok_is(t: Seq<Tok>, i: int, k: TokKind) -> bool {
    0 <= i < t.len() && t[i].kind == k
}

/// The source text of token `i`.
pub open spec fn text(s: Seq<char>, t: Seq<Tok>, i: int) -> Seq<char> {
    s.subrange(t[i].start as int, t[i].end as int)
}

// ── Integers ───────────────────────────────────────────────────────────────

pub open spec fn digit_val(c: char) -> int {
    if is_digit(c) {
        (c as int) - ('0' as int)
    } else {
        0
    }
}

/// The value of a sequence of decimal digits.
pub open spec fn digits_val(d: Seq<char>) -> int
    decreases d.len(),
{
    if d.len() == 0 {
        0
    } else {
        digits_val(d.drop_last()) * 10 + digit_val(d.last())
    }
}

/// The `i64` an integer literal denotes; `None` when it does not fit.
pub open spec fn spec_parse_int(d: Seq<char>) -> Option<i64> {
    if d.len() > 0 && d[0] == '-' {
        let v = digits_val(d.drop_first());
        if v <= 0x8000_0000_0000_0000 {
            Some((-v) as i64)
        } else {
            None
        }
    } else {
        let v = digits_val(d);
        if v <= 0x7fff_ffff_ffff_ffff {
            Some(v as i64)
        } else {
            None
        }
    }
}

pub open spec fn spec_int_value(d: Seq<char>) -> SpecRawValue {
    match spec_parse_int(d) {
        Some(n) => SpecRawValue::Int(n),
        None => SpecRawValue::BadInt(d),
    }
}

pub proof fn lemma_digits_val_nonneg(d: Seq<char>)
    ensures
        digits_val(d) >= 0,
    decreases d.len(),
{
    if d.len() > 0 {
        lemma_digits_val_nonneg(d.drop_last());
    }
}

/// The value of the integer literal `s[lo..hi]`, if it fits in an `i64`.
pub fn parse_int(s: &Vec<char>, lo: usize, hi: usize) -> (r: Option<i64>)
    requires
        lo <= hi <= s@.len(),
    ensures
        r == spec_parse_int(s@.subrange(lo as int, hi as int)),
{
    let ghost d = s@.subrange(lo as int, hi as int);
    let neg = lo < hi && s[lo] == '-';
    let start = if neg {
        lo + 1
    } else {
        lo
    };
    let ghost ds = s@.subrange(start as int, hi as int);
    proof {
        if neg {
            assert(d.drop_first() =~= ds);
        } else {
            assert(d =~= ds);
        }
        assert(ds.subrange(0, 0) =~= Seq::<char>::empty());
    }
    let mut acc: u64 = 0;
    let mut overflow = false;
    let mut k = start;
    while k < hi
        invariant
            start <= k <= hi <= s@.len(),
            ds == s@.subrange(start as int, hi as int),
            !overflow ==> acc == digits_val(ds.subrange(0, k - start)),
            overflow ==> digits_val(ds.subrange(0, k - start)) > u64::MAX,
        decreases hi - k,
    {
        let c = s[k];
        let dv: u64 = if '0' <= c && c <= '9' {
            (c as u64) - ('0' as u64)
        } else {
            0
        };
        proof {
            assert(ds.subrange(0, k + 1 - start).drop_last() =~= ds.subrange(0, k - start));
            assert(ds.subrange(0, k + 1 - start).last() == c);
            lemma_digits_val_nonneg(ds.subrange(0, k - start));
        }
        if !overflow {
            match acc.checked_mul(10) {
                Some(m) => match m.checked_add(dv) {
                    Some(a) => {
                        acc = a;
                    },
                    None => {
                        overflow = true;
                    },
                },
                None => {
                    overflow = true;
                },
            }
        }
        k = k + 1;
    }
    assert(ds.subrange(0, hi - start) =~= ds);
    if overflow {
        None
    } else if neg {
        if acc <= 0x8000_0000_0000_0000u64 {
            if acc == 0x8000_0000_0000_0000u64 {
                Some(i64::MIN)
            } else {
                Some(-(acc as i64))
            }
        } else {
            None
        }
    } else {
        if acc <= 0x7fff_ffff_ffff_ffffu64 {
            Some(acc as i64)
        } else {
            None
        }
    }
}

// ── Values ─────────────────────────────────────────────────────────────────

/// The value that starts at token `i`, and the position after it.
pub open spec fn spec_value(s: Seq<char>, t: Seq<Tok>, i: int) -> Option<(SpecRawValue, int)>
    decreases t.len() - i, 0int,
{
    if i < 0 || i >= t.len() {
        None
    } else if t[i].kind == TokKind::Str {
        Some((SpecRawValue::Str(text(s, t, i)), i + 1))
    } else if t[i].kind == TokKind::Int {
        Some((spec_int_value(text(s, t, i)), i + 1))
    } else if t[i].kind == TokKind::Float {
        Some((SpecRawValue::Float(text(s, t, i)), i + 1))
    } else if t[i].kind == TokKind::Ident {
        if tok_is(t, i + 1, TokKind::LParen) {
            match spec_args(s, t, i + 2, Seq::empty()) {
                Some((a, j)) => Some((SpecRawValue::Call(text(s, t, i), a), j)),
                None => None,
            }
        } else {
            Some((SpecRawValue::Ident(text(s, t, i)), i + 1))
        }
    } else if t[i].kind == TokKind::LBracket {
        match spec_items(s, t, i + 1, Seq::empty()) {
            Some((xs, j)) => Some((SpecRawValue::Array(xs), j)),
            None => None,
        }
    } else {
        None
    }
}

/// The items of an array from token `i` (after `[` or a `,`), and the position after `]`.
pub open spec fn spec_items(s: Seq<char>, t: Seq<Tok>, i: int, acc: Seq<SpecRawValue>) -> Option<
    (Seq<SpecRawValue>, int),
>
    decreases t.len() - i, 2int,
{
    if i < 0 || i > t.len() {
        None
    } else if acc.len() == 0 && tok_is(t, i, TokKind::RBracket) {
        Some((acc, i + 1))
    } else {
        match spec_value(s, t, i) {
            Some((v, j)) => if i < j <= t.len() {
                if tok_is(t, j, TokKind::Comma) {
                    spec_items(s, t, j + 1, acc.push(v))
                } else if tok_is(t, j, TokKind::RBracket) {
                    Some((acc.push(v), j + 1))
                } else {
                    None
                }
            } else {
                None
            },
            None => None,
        }
    }
}

/// The argument that starts at token `i`: `name: value` or a value.
pub open spec fn spec_arg(s: Seq<char>, t: Seq<Tok>, i: int) -> Option<(SpecRawArg, int)>
    decreases t.len() - i, 1int,
{
    if i < 0 || i > t.len() {
        None
    } else if tok_is(t, i, TokKind::Ident) && tok_is(t, i + 1, TokKind::Colon) {
        match spec_value(s, t, i + 2) {
            Some((v, j)) => Some((SpecRawArg::Named(text(s, t, i), v), j)),
            None => None,
        }
    } else {
        match spec_value(s, t, i) {
            Some((v, j)) => Some((SpecRawArg::Positional(v), j)),
            None => None,
        }
    }
}

/// The arguments from token `i` (after `(` or a `,`), and the position after `)`.
pub open spec fn spec_args(s: Seq<char>, t: Seq<Tok>, i: int, acc: Seq<SpecRawArg>) -> Option<
    (Seq<SpecRawArg>, int),
>
    decreases t.len() - i, 2int,
{
    if i < 0 || i > t.len() {
        None
    } else if acc.len() == 0 && tok_is(t, i, TokKind::RParen) {
        Some((acc, i + 1))
    } else {
        match spec_arg(s, t, i) {
            Some((a, j)) => if i < j <= t.len() {
                if tok_is(t, j, TokKind::Comma) {
                    spec_args(s, t, j + 1, acc.push(a))
                } else if tok_is(t, j, TokKind::RParen) {
                    Some((acc.push(a), j + 1))
                } else {
                    None
                }
            } else {
                None
            },
            None => None,
        }
    }
}

pub proof fn lemma_value_progress(s: Seq<char>, t: Seq<Tok>, i: int)
    ensures
        spec_value(s, t, i) matches Some((v, j)) ==> i < j <= t.len(),
        spec_items(s, t, i, Seq::empty()) matches Some((xs, j)) ==> i < j <= t.len(),
    decreases t.len() - i,
{
    lemma_items_progress(s, t, i, Seq::empty());
    if 0 <= i < t.len() {
        if t[i].kind == TokKind::Ident && tok_is(t, i + 1, TokKind::LParen) {
            lemma_args_progress(s, t, i + 2, Seq::empty());
        } else if t[i].kind == TokKind::LBracket {
            lemma_items_progress(s, t, i + 1, Seq::empty());
        }
    }
}

pub proof fn lemma_items_progress(s: Seq<char>, t: Seq<Tok>, i: int, acc: Seq<SpecRawValue>)
    ensures
        spec_items(s, t, i, acc) matches Some((xs, j)) ==> i < j <= t.len(),
    decreases t.len() - i, 1int,
{
    if 0 <= i <= t.len() && !(acc.len() == 0 && tok_is(t, i, TokKind::RBracket)) {
        match spec_value(s, t, i) {
            Some((v, j)) => if i < j <= t.len() && tok_is(t, j, TokKind::Comma) {
                lemma_items_progress(s, t, j + 1, acc.push(v));
            },
            None => {},
        }
    }
}

pub proof fn lemma_args_progress(s: Seq<char>, t: Seq<Tok>, i: int, acc: Seq<SpecRawArg>)
    ensures
        spec_args(s, t, i, acc) matches Some((xs, j)) ==> i < j <= t.len(),
    decreases t.len() - i, 1int,
{
    if 0 <= i <= t.len() && !(acc.len() == 0 && tok_is(t, i, TokKind::RParen)) {
        match spec_arg(s, t, i) {
            Some((a, j)) => if i < j <= t.len() && tok_is(t, j, TokKind::Comma) {
                lemma_args_progress(s, t, j + 1, acc.push(a));
            },
            None => {},
        }
    }
}

pub proof fn lemma_arg_progress(s: Seq<char>, t: Seq<Tok>, i: int)
    ensures
        spec_arg(s, t, i) matches Some((a, j)) ==> i < j <= t.len(),
{
    lemma_value_progress(s, t, i);
    lemma_value_progress(s, t, i + 2);
}

// ── Executable value parser ────────────────────────────────────────────────

/// The string holding the text of token `k`.
pub fn tok_string(s: &Vec<char>, t: &Vec<Tok>, k: usize) -> (r: String)
    requires
        toks_wf(s@, t@),
        k < t@.len(),
    ensures
        r@ == text(s@, t@, k as int),
{
    let tk = t[k];
    string_from(s, tk.start, tk.end)
}

/// Whether token `k` exists and has kind `kind`.
pub fn is_tok(t: &Vec<Tok>, k: usize, kind: TokKind) -> (r: bool)
    ensures
        r == tok_is(t@, k as int, kind),
        t@.len() <= usize::MAX,
{
    k < t.len() && t[k].kind == kind
}

/// Parses the value that starts at token `i`.
pub fn parse_value(s: &Vec<char>, t: &Vec<Tok>, i: usize) -> (r: Option<(RawValue, usize)>)
    requires
        toks_wf(s@, t@),
        i <= t@.len(),
    ensures
        match r {
            Some((v, j)) => spec_value(s@, t@, i as int) == Some((raw_value_v(v), j as int)),
            None => spec_value(s@, t@, i as int) is None,
        },
    decreases t@.len() - i, 0int,
{
    if i >= t.len() {
        return None;
    }
    let tk = t[i];
    if tk.kind == TokKind::Str {
        Some((RawValue::Str(tok_string(s, t, i)), i + 1))
    } else if tk.kind == TokKind::Int {
        let v = match parse_int(s, tk.start, tk.end) {
            Some(n) => RawValue::Int(n),
            None => RawValue::BadInt(tok_string(s, t, i)),
        };
        Some((v, i + 1))
    } else if tk.kind == TokKind::Float {
        Some((RawValue::Float(tok_string(s, t, i)), i + 1))
    } else if tk.kind == TokKind::Ident {
        if is_tok(t, i + 1, TokKind::LParen) {
            match parse_args(s, t, i + 2) {
                Some((a, j)) => Some((RawValue::Call(tok_string(s, t, i), a), j)),
                None => None,
            }
        } else {
            Some((RawValue::Ident(tok_string(s, t, i)), i + 1))
        }
    } else if tk.kind == TokKind::LBracket {
        match parse_items(s, t, i + 1) {
            Some((xs, j)) => Some((RawValue::Array(xs), j)),
            None => None,
        }
    } else {
        None
    }
}

/// Parses array items from token `i` up to and including the closing `]`.
pub fn parse_items(s: &Vec<char>, t: &Vec<Tok>, i: usize) -> (r: Option<(Vec<RawValue>, usize)>)
    requires
        toks_wf(s@, t@),
        i <= t@.len(),
    ensures
        match r {
            Some((xs, j)) => spec_items(s@, t@, i as int, Seq::empty()) == Some(
                (raw_values_v(xs@), j as int),
            ),
            None => spec_items(s@, t@, i as int, Seq::empty()) is None,
        },
    decreases t@.len() - i, 2int,
{
    let mut acc: Vec<RawValue> = Vec::new();
    assert(raw_values_v(acc@) =~= Seq::<SpecRawValue>::empty());
    if is_tok(t, i, TokKind::RBracket) {
        return Some((acc, i + 1));
    }
    let mut cur = i;
    loop
        invariant
            toks_wf(s@, t@),
            i <= cur <= t@.len(),
            spec_items(s@, t@, i as int, Seq::empty()) == spec_items(
                s@,
                t@,
                cur as int,
                raw_values_v(acc@),
            ),
            acc@.len() == 0 ==> (cur == i && !tok_is(t@, i as int, TokKind::RBracket)),
        decreases t@.len() - cur,
    {
        proof {
            lemma_raw_values_len(acc@);
            lemma_value_progress(s@, t@, cur as int);
        }
        match parse_value(s, t, cur) {
            Some((v, j)) => {
                proof {
                    lemma_raw_values_push(acc@, v);
                }
                if is_tok(t, j, TokKind::Comma) {
                    acc.push(v);
                    cur = j + 1;
                } else if is_tok(t, j, TokKind::RBracket) {
                    acc.push(v);
                    return Some((acc, j + 1));
                } else {
                    return None;
                }
            },
            None => {
                return None;
            },
        }
    }
}

/// Parses the argument that starts at token `i`.
pub fn parse_arg(s: &Vec<char>, t: &Vec<Tok>, i: usize) -> (r: Option<(RawArg, usize)>)
    requires
        toks_wf(s@, t@),
        i <= t@.len(),
    ensures
        match r {
            Some((a, j)) => spec_arg(s@, t@, i as int) == Some((raw_arg_v(a), j as int)),
            None => spec_arg(s@, t@, i as int) is None,
        },
    decreases t@.len() - i, 1int,
{
    if is_tok(t, i, TokKind::Ident) && is_tok(t, i + 1, TokKind::Colon) {
        match parse_value(s, t, i + 2) {
            Some((v, j)) => Some((RawArg::Named(tok_string(s, t, i), v), j)),
            None => None,
        }
    } else {
        match parse_value(s, t, i) {
            Some((v, j)) => Some((RawArg::Positional(v), j)),
            None => None,
        }
    }
}

/// Parses arguments from token `i` up to and including the closing `)`.
pub fn parse_args(s: &Vec<char>, t: &Vec<Tok>, i: usize) -> (r: Option<(Vec<RawArg>, usize)>)
    requires
        toks_wf(s@, t@),
        i <= t@.len(),
    ensures
        match r {
            Some((xs, j)) => spec_args(s@, t@, i as int, Seq::empty()) == Some(
                (raw_args_v(xs@), j as int),
            ),
            None => spec_args(s@, t@, i as int, Seq::empty()) is None,
        },
    decreases t@.len() - i, 2int,
{
    let mut acc: Vec<RawArg> = Vec::new();
    assert(raw_args_v(acc@) =~= Seq::<SpecRawArg>::empty());
    if is_tok(t, i, TokKind::RParen) {
        return Some((acc, i + 1));
    }
    let mut cur = i;
    loop
        invariant
            toks_wf(s@, t@),
            i <= cur <= t@.len(),
            spec_args(s@, t@, i as int, Seq::empty()) == spec_args(
                s@,
                t@,
                cur as int,
                raw_args_v(acc@),
            ),
            acc@.len() == 0 ==> (cur == i && !tok_is(t@, i as int, TokKind::RParen)),
        decreases t@.len() - cur,
    {
        proof {
            lemma_raw_args_len(acc@);
            lemma_arg_progress(s@, t@, cur as int);
        }
        match parse_arg(s, t, cur) {
            Some((a, j)) => {
                proof {
                    lemma_raw_args_push(acc@, a);
                }
                if is_tok(t, j, TokKind::Comma) {
                    acc.push(a);
                    cur = j + 1;
                } else if is_tok(t, j, TokKind::RParen) {
                    acc.push(a);
                    return Some((acc, j + 1));
                } else {
                    return None;
                }
            },
            None => {
                return None;
            },
        }
    }
}

// ── Attributes and fields ──────────────────────────────────────────────────

/// The attribute whose path is token `i`, with its optional argument list.
pub open spec fn spec_attr(s: Seq<char>, t: Seq<Tok>, i: int) -> Option<(SpecRawAttr, int)> {
    if i < 0 || i >= t.len() {
        None
    } else if tok_is(t, i + 1, TokKind::LParen) {
        match spec_args(s, t, i + 2, Seq::empty()) {
            Some((a, j)) => Some((SpecRawAttr { path: text(s, t, i), args: a }, j)),
            None => None,
        }
    } else {
        Some((SpecRawAttr { path: text(s, t, i), args: Seq::empty() }, i + 1))
    }
}

/// The field attributes from token `i` on.
pub open spec fn spec_field_attrs(s: Seq<char>, t: Seq<Tok>, i: int, acc: Seq<SpecRawAttr>) -> Option<
    (Seq<SpecRawAttr>, int),
>
    decreases t.len() - i,
{
    if i < 0 || i > t.len() {
        None
    } else if tok_is(t, i, TokKind::Attr) {
        match spec_attr(s, t, i) {
            Some((a, j)) => if i < j <= t.len() {
                spec_field_attrs(s, t, j, acc.push(a))
            } else {
                None
            },
            None => None,
        }
    } else {
        Some((acc, i))
    }
}

/// The type modifier at token `i`: (`?`, `[]`, position after it).
pub open spec fn spec_modifier(t: Seq<Tok>, i: int) -> (bool, bool, int) {
    if tok_is(t, i, TokKind::Question) {
        (true, false, i + 1)
    } else if tok_is(t, i, TokKind::LBracket) && tok_is(t, i + 1, TokKind::RBracket) {
        (false, true, i + 2)
    } else {
        (false, false, i)
    }
}

/// The field declaration whose name is token `i`.
pub open spec fn spec_field(s: Seq<char>, t: Seq<Tok>, i: int) -> Option<(SpecRawField, int)> {
    if !tok_is(t, i, TokKind::Ident) || !tok_is(t, i + 1, TokKind::Ident) {
        None
    } else {
        let tn = text(s, t, i + 1);
        if tn == "Unsupported"@ && tok_is(t, i + 2, TokKind::LParen) {
            if tok_is(t, i + 3, TokKind::Str) && tok_is(t, i + 4, TokKind::RParen) {
                let (opt, arr, k) = spec_modifier(t, i + 5);
                match spec_field_attrs(s, t, k, Seq::empty()) {
                    Some((attrs, j)) => Some(
                        (
                            SpecRawField {
                                name: text(s, t, i),
                                unsupported_type: Some(text(s, t, i + 3)),
                                base_type: Seq::empty(),
                                is_optional: opt,
                                is_array: arr,
                                attrs,
                            },
                            j,
                        ),
                    ),
                    None => None,
                }
            } else {
                None
            }
        } else {
            let (opt, arr, k) = spec_modifier(t, i + 2);
            match spec_field_attrs(s, t, k, Seq::empty()) {
                Some((attrs, j)) => Some(
                    (
                        SpecRawField {
                            name: text(s, t, i),
                            unsupported_type: None,
                            base_type: tn,
                            is_optional: opt,
                            is_array: arr,
                            attrs,
                        },
                        j,
                    ),
                ),
                None => None,
            }
        }
    }
}

pub proof fn lemma_attr_progress(s: Seq<char>, t: Seq<Tok>, i: int)
    ensures
        spec_attr(s, t, i) matches Some((a, j)) ==> i < j <= t.len(),
{
    if 0 <= i < t.len() && tok_is(t, i + 1, TokKind::LParen) {
        lemma_args_progress(s, t, i + 2, Seq::empty());
    }
}

pub proof fn lemma_field_attrs_progress(s: Seq<char>, t: Seq<Tok>, i: int, acc: Seq<SpecRawAttr>)
    ensures
        spec_field_attrs(s, t, i, acc) matches Some((a, j)) ==> i <= j <= t.len(),
    decreases t.len() - i,
{
    if 0 <= i <= t.len() && tok_is(t, i, TokKind::Attr) {
        match spec_attr(s, t, i) {
            Some((a, j)) => if i < j <= t.len() {
                lemma_field_attrs_progress(s, t, j, acc.push(a));
            },
            None => {},
        }
    }
}

pub proof fn lemma_field_progress(s: Seq<char>, t: Seq<Tok>, i: int)
    ensures
        spec_field(s, t, i) matches Some((f, j)) ==> i < j <= t.len(),
{
    lemma_field_attrs_progress(s, t, i + 2, Seq::empty());
    lemma_field_attrs_progress(s, t, i + 3, Seq::empty());
    lemma_field_attrs_progress(s, t, i + 4, Seq::empty());
    lemma_field_attrs_progress(s, t, i + 5, Seq::empty());
    lemma_field_attrs_progress(s, t, i + 6, Seq::empty());
    lemma_field_attrs_progress(s, t, i + 7, Seq::empty());
}

/// Parses the attribute whose path is token `i`.
pub fn parse_attr(s: &Vec<char>, t: &Vec<Tok>, i: usize) -> (r: Option<(RawAttr, usize)>)
    requires
        toks_wf(s@, t@),
        i < t@.len(),
    ensures
        match r {
            Some((a, j)) => spec_attr(s@, t@, i as int) == Some((a.deep_view(), j as int)),
            None => spec_attr(s@, t@, i as int) is None,
        },
{
    let n = t.len();
    let path = tok_string(s, t, i);
    if is_tok(t, i + 1, TokKind::LParen) {
        match parse_args(s, t, i + 2) {
            Some((a, j)) => Some((RawAttr { path, args: a }, j)),
            None => None,
        }
    } else {
        let args: Vec<RawArg> = Vec::new();
        assert(raw_args_v(args@) =~= Seq::<SpecRawArg>::empty());
        Some((RawAttr { path, args }, i + 1))
    }
}

/// Parses the field attributes from token `i` on.
pub fn parse_field_attrs(s: &Vec<char>, t: &Vec<Tok>, i: usize) -> (r: Option<(Vec<RawAttr>, usize)>)
    requires
        toks_wf(s@, t@),
        i <= t@.len(),
    ensures
        match r {
            Some((xs, j)) => spec_field_attrs(s@, t@, i as int, Seq::empty()) == Some(
                (xs.deep_view(), j as int),
            ),
            None => spec_field_attrs(s@, t@, i as int, Seq::empty()) is None,
        },
{
    let mut acc: Vec<RawAttr> = Vec::new();
    proof {
        lemma_dv_empty(acc);
    }
    let mut cur = i;
    while is_tok(t, cur, TokKind::Attr)
        invariant
            toks_wf(s@, t@),
            i <= cur <= t@.len(),
            spec_field_attrs(s@, t@, i as int, Seq::empty()) == spec_field_attrs(
                s@,
                t@,
                cur as int,
                acc.deep_view(),
            ),
        decreases t@.len() - cur,
    {
        proof {
            lemma_attr_progress(s@, t@, cur as int);
        }
        match parse_attr(s, t, cur) {
            Some((a, j)) => {
                let ghost a0 = acc;
                acc.push(a);
                proof {
                    lemma_dv_push(a0, acc, a);
                }
                cur = j;
            },
            None => {
                return None;
            },
        }
    }
    Some((acc, cur))
}

fn parse_modifier(t: &Vec<Tok>, i: usize) -> (r: (bool, bool, usize))
    requires
        i <= t@.len(),
    ensures
        (r.0, r.1, r.2 as int) == spec_modifier(t@, i as int),
        r.2 <= t@.len(),
{
    if is_tok(t, i, TokKind::Question) {
        (true, false, i + 1)
    } else if is_tok(t, i, TokKind::LBracket) && is_tok(t, i + 1, TokKind::RBracket) {
        (false, true, i + 2)
    } else {
        (false, false, i)
    }
}

/// Parses the field declaration whose name is token `i`.
pub fn parse_field(s: &Vec<char>, t: &Vec<Tok>, i: usize) -> (r: Option<(RawField, usize)>)
    requires
        toks_wf(s@, t@),
        i <= t@.len(),
    ensures
        match r {
            Some((f, j)) => spec_field(s@, t@, i as int) == Some((f.deep_view(), j as int)),
            None => spec_field(s@, t@, i as int) is None,
        },
{
    if !is_tok(t, i, TokKind::Ident) || !is_tok(t, i + 1, TokKind::Ident) {
        return None;
    }
    let tn = tok_string(s, t, i + 1);
    if str_eq(tn.as_str(), "Unsupported") && is_tok(t, i + 2, TokKind::LParen) {
        if is_tok(t, i + 3, TokKind::Str) && is_tok(t, i + 4, TokKind::RParen) {
            let (opt, arr, k) = parse_modifier(t, i + 5);
            match parse_field_attrs(s, t, k) {
                Some((attrs, j)) => Some(
                    (
                        RawField {
                            name: tok_string(s, t, i),
                            unsupported_type: Some(tok_string(s, t, i + 3)),
                            base_type: String::new(),
                            is_optional: opt,
                            is_array: arr,
                            attrs,
                        },
                        j,
                    ),
                ),
                None => None,
            }
        } else {
            None
        }
    } else {
        let (opt, arr, k) = parse_modifier(t, i + 2);
        match parse_field_attrs(s, t, k) {
            Some((attrs, j)) => Some(
                (
                    RawField {
                        name: tok_string(s, t, i),
                        unsupported_type: None,
                        base_type: tn,
                        is_optional: opt,
                        is_array: arr,
                        attrs,
                    },
                    j,
                ),
            ),
            None => None,
        }
    }
}

// ── Block bodies ───────────────────────────────────────────────────────────

/// The entries of a `model` / `view` body from token `i`, up to and including `}`.
pub open spec fn spec_model_entries(
    s: Seq<char>,
    t: Seq<Tok>,
    i: int,
    fields: Seq<SpecRawField>,
    battrs: Seq<SpecRawAttr>,
) -> Option<(Seq<SpecRawField>, Seq<SpecRawAttr>, int)>
    decreases t.len() - i,
{
    if i < 0 || i > t.len() {
        None
    } else if tok_is(t, i, TokKind::RBrace) {
        Some((fields, battrs, i + 1))
    } else if tok_is(t, i, TokKind::BlockAttr) {
        match spec_attr(s, t, i) {
            Some((a, j)) => if i < j <= t.len() {
                spec_model_entries(s, t, j, fields, battrs.push(a))
            } else {
                None
            },
            None => None,
        }
    } else if tok_is(t, i, TokKind::Ident) {
        match spec_field(s, t, i) {
            Some((f, j)) => if i < j <= t.len() {
                spec_model_entries(s, t, j, fields.push(f), battrs)
            } else {
                None
            },
            None => None,
        }
    } else {
        None
    }
}

/// The entries of an `enum` body from token `i`, up to and including `}`.
pub open spec fn spec_enum_body(s: Seq<char>, t: Seq<Tok>, i: int, acc: Seq<SpecEnumEntry>) -> Option<
    (Seq<SpecEnumEntry>, int),
>
    decreases t.len() - i,
{
    if i < 0 || i > t.len() {
        None
    } else if tok_is(t, i, TokKind::RBrace) {
        Some((acc, i + 1))
    } else if tok_is(t, i, TokKind::BlockAttr) {
        match spec_attr(s, t, i) {
            Some((a, j)) => if i < j <= t.len() {
                spec_enum_body(s, t, j, acc.push(SpecEnumEntry::Attr(a)))
            } else {
                None
            },
            None => None,
        }
    } else if tok_is(t, i, TokKind::Ident) {
        match spec_field_attrs(s, t, i + 1, Seq::empty()) {
            Some((attrs, j)) => if i < j <= t.len() {
                spec_enum_body(s, t, j, acc.push(SpecEnumEntry::Value(text(s, t, i), attrs)))
            } else {
                None
            },
            None => None,
        }
    } else {
        None
    }
}

/// The `key = value` entries of a `datasource` / `generator` body, up to and including `}`.
pub open spec fn spec_config(s: Seq<char>, t: Seq<Tok>, i: int, acc: Seq<SpecConfigField>) -> Option<
    (Seq<SpecConfigField>, int),
>
    decreases t.len() - i,
{
    if i < 0 || i > t.len() {
        None
    } else if tok_is(t, i, TokKind::RBrace) {
        Some((acc, i + 1))
    } else if tok_is(t, i, TokKind::Ident) && tok_is(t, i + 1, TokKind::Eq) {
        match spec_value(s, t, i + 2) {
            Some((v, j)) => if i < j <= t.len() {
                spec_config(s, t, j, acc.push(SpecConfigField { key: text(s, t, i), value: v }))
            } else {
                None
            },
            None => None,
        }
    } else {
        None
    }
}

/// The top-level block that starts at token `i`.
pub open spec fn spec_block(s: Seq<char>, t: Seq<Tok>, i: int) -> Option<(SpecBlock, int)> {
    if !tok_is(t, i, TokKind::Ident) {
        None
    } else {
        let kw = text(s, t, i);
        if kw == "datasource"@ || kw == "generator"@ {
            if tok_is(t, i + 1, TokKind::Ident) && tok_is(t, i + 2, TokKind::LBrace) {
                match spec_config(s, t, i + 3, Seq::empty()) {
                    Some((c, j)) => Some(
                        (
                            if kw == "datasource"@ {
                                SpecBlock::Datasource(c)
                            } else {
                                SpecBlock::Generator(c)
                            },
                            j,
                        ),
                    ),
                    None => None,
                }
            } else {
                None
            }
        } else if kw == "model"@ || kw == "view"@ {
            if tok_is(t, i + 1, TokKind::Ident) && tok_is(t, i + 2, TokKind::LBrace) {
                match spec_model_entries(s, t, i + 3, Seq::empty(), Seq::empty()) {
                    Some((fs, bas, j)) => {
                        let m = SpecRawModel { name: text(s, t, i + 1), fields: fs, block_attrs: bas };
                        Some(
                            (
                                if kw == "model"@ {
                                    SpecBlock::Model(m)
                                } else {
                                    SpecBlock::View(m)
                                },
                                j,
                            ),
                        )
                    },
                    None => None,
                }
            } else {
                None
            }
        } else if kw == "enum"@ {
            if tok_is(t, i + 1, TokKind::Ident) && tok_is(t, i + 2, TokKind::LBrace) {
                match spec_enum_body(s, t, i + 3, Seq::empty()) {
                    Some((es, j)) => Some(
                        (SpecBlock::Enum(SpecRawEnum { name: text(s, t, i + 1), entries: es }), j),
                    ),
                    None => None,
                }
            } else {
                None
            }
        } else if kw == "type"@ {
            if tok_is(t, i + 1, TokKind::Ident) && tok_is(t, i + 2, TokKind::Eq) && tok_is(
                t,
                i + 3,
                TokKind::Ident,
            ) {
                match spec_field_attrs(s, t, i + 4, Seq::empty()) {
                    Some((attrs, j)) => Some(
                        (
                            SpecBlock::TypeAlias(
                                SpecRawTypeAlias {
                                    name: text(s, t, i + 1),
                                    base_type: text(s, t, i + 3),
                                    attrs,
                                },
                            ),
                            j,
                        ),
                    ),
                    None => None,
                }
            } else {
                None
            }
        } else {
            None
        }
    }
}

/// Parses the entries of a `model` / `view` body.
pub fn parse_model_entries(s: &Vec<char>, t: &Vec<Tok>, i: usize) -> (r: Option<
    (Vec<RawField>, Vec<RawAttr>, usize),
>)
    requires
        toks_wf(s@, t@),
        i <= t@.len(),
    ensures
        match r {
            Some((fs, bas, j)) => spec_model_entries(s@, t@, i as int, Seq::empty(), Seq::empty())
                == Some((fs.deep_view(), bas.deep_view(), j as int)),
            None => spec_model_entries(s@, t@, i as int, Seq::empty(), Seq::empty()) is None,
        },
{
    let mut fields: Vec<RawField> = Vec::new();
    let mut battrs: Vec<RawAttr> = Vec::new();
    proof {
        lemma_dv_empty(fields);
        lemma_dv_empty(battrs);
    }
    let mut cur = i;
    loop
        invariant
            toks_wf(s@, t@),
            i <= cur <= t@.len(),
            spec_model_entries(s@, t@, i as int, Seq::empty(), Seq::empty())
                == spec_model_entries(s@, t@, cur as int, fields.deep_view(), battrs.deep_view()),
        decreases t@.len() - cur,
    {
        if is_tok(t, cur, TokKind::RBrace) {
            return Some((fields, battrs, cur + 1));
        } else if is_tok(t, cur, TokKind::BlockAttr) {
            proof {
                lemma_attr_progress(s@, t@, cur as int);
            }
            match parse_attr(s, t, cur) {
                Some((a, j)) => {
                    let ghost b0 = battrs;
                    battrs.push(a);
                    proof {
                        lemma_dv_push(b0, battrs, a);
                    }
                    cur = j;
                },
                None => {
                    return None;
                },
            }
        } else if is_tok(t, cur, TokKind::Ident) {
            proof {
                lemma_field_progress(s@, t@, cur as int);
            }
            match parse_field(s, t, cur) {
                Some((f, j)) => {
                    let ghost f0 = fields;
                    fields.push(f);
                    proof {
                        lemma_dv_push(f0, fields, f);
                    }
                    cur = j;
                },
                None => {
                    return None;
                },
            }
        } else {
            return None;
        }
    }
}

/// Parses the entries of an `enum` body.
pub fn parse_enum_body(s: &Vec<char>, t: &Vec<Tok>, i: usize) -> (r: Option<(Vec<EnumEntry>, usize)>)
    requires
        toks_wf(s@, t@),
        i <= t@.len(),
    ensures
        match r {
            Some((es, j)) => spec_enum_body(s@, t@, i as int, Seq::empty()) == Some(
                (es.deep_view(), j as int),
            ),
            None => spec_enum_body(s@, t@, i as int, Seq::empty()) is None,
        },
{
    let mut acc: Vec<EnumEntry> = Vec::new();
    proof {
        lemma_dv_empty(acc);
    }
    let mut cur = i;
    loop
        invariant
            toks_wf(s@, t@),
            i <= cur <= t@.len(),
            spec_enum_body(s@, t@, i as int, Seq::empty()) == spec_enum_body(
                s@,
                t@,
                cur as int,
                acc.deep_view(),
            ),
        decreases t@.len() - cur,
    {
        if is_tok(t, cur, TokKind::RBrace) {
            return Some((acc, cur + 1));
        } else if is_tok(t, cur, TokKind::BlockAttr) {
            proof {
                lemma_attr_progress(s@, t@, cur as int);
            }
            match parse_attr(s, t, cur) {
                Some((a, j)) => {
                    let e = EnumEntry::Attr(a);
                    let ghost a0 = acc;
                    acc.push(e);
                    proof {
                        lemma_dv_push(a0, acc, e);
                    }
                    cur = j;
                },
                None => {
                    return None;
                },
            }
        } else if is_tok(t, cur, TokKind::Ident) {
            proof {
                lemma_field_attrs_progress(s@, t@, cur + 1, Seq::empty());
            }
            match parse_field_attrs(s, t, cur + 1) {
                Some((attrs, j)) => {
                    let e = EnumEntry::Value(tok_string(s, t, cur), attrs);
                    let ghost a0 = acc;
                    acc.push(e);
                    proof {
                        lemma_dv_push(a0, acc, e);
                    }
                    cur = j;
                },
                None => {
                    return None;
                },
            }
        } else {
            return None;
        }
    }
}

/// Parses the entries of a `datasource` / `generator` body.
pub fn parse_config(s: &Vec<char>, t: &Vec<Tok>, i: usize) -> (r: Option<(Vec<ConfigField>, usize)>)
    requires
        toks_wf(s@, t@),
        i <= t@.len(),
    ensures
        match r {
            Some((cs, j)) => spec_config(s@, t@, i as int, Seq::empty()) == Some(
                (cs.deep_view(), j as int),
            ),
            None => spec_config(s@, t@, i as int, Seq::empty()) is None,
        },
{
    let mut acc: Vec<ConfigField> = Vec::new();
    proof {
        lemma_dv_empty(acc);
    }
    let mut cur = i;
    loop
        invariant
            toks_wf(s@, t@),
            i <= cur <= t@.len(),
            spec_config(s@, t@, i as int, Seq::empty()) == spec_config(
                s@,
                t@,
                cur as int,
                acc.deep_view(),
            ),
        decreases t@.len() - cur,
    {
        if is_tok(t, cur, TokKind::RBrace) {
            return Some((acc, cur + 1));
        } else if is_tok(t, cur, TokKind::Ident) && is_tok(t, cur + 1, TokKind::Eq) {
            proof {
                lemma_value_progress(s@, t@, cur + 2);
            }
            match parse_value(s, t, cur + 2) {
                Some((v, j)) => {
                    let c = ConfigField { key: tok_string(s, t, cur), value: v };
                    let ghost a0 = acc;
                    acc.push(c);
                    proof {
                        lemma_dv_push(a0, acc, c);
                    }
                    cur = j;
                },
                None => {
                    return None;
                },
            }
        } else {
            return None;
        }
    }
}

/// Parses the top-level block that starts at token `i`.
pub fn parse_block(s: &Vec<char>, t: &Vec<Tok>, i: usize) -> (r: Option<(Block, usize)>)
    requires
        toks_wf(s@, t@),
        i <= t@.len(),
    ensures
        match r {
            Some((b, j)) => spec_block(s@, t@, i as int) == Some((b.deep_view(), j as int)),
            None => spec_block(s@, t@, i as int) is None,
        },
{
    if !is_tok(t, i, TokKind::Ident) {
        return None;
    }
    let kw = tok_string(s, t, i);
    let k = kw.as_str();
    if str_eq(k, "datasource") || str_eq(k, "generator") {
        if is_tok(t, i + 1, TokKind::Ident) && is_tok(t, i + 2, TokKind::LBrace) {
            match parse_config(s, t, i + 3) {
                Some((c, j)) => Some(
                    (
                        if str_eq(k, "datasource") {
                            Block::Datasource(c)
                        } else {
                            Block::Generator(c)
                        },
                        j,
                    ),
                ),
                None => None,
            }
        } else {
            None
        }
    } else if str_eq(k, "model") || str_eq(k, "view") {
        if is_tok(t, i + 1, TokKind::Ident) && is_tok(t, i + 2, TokKind::LBrace) {
            match parse_model_entries(s, t, i + 3) {
                Some((fs, bas, j)) => {
                    let m = RawModel { name: tok_string(s, t, i + 1), fields: fs, block_attrs: bas };
                    Some(
                        (
                            if str_eq(k, "model") {
                                Block::Model(m)
                            } else {
                                Block::View(m)
                            },
                            j,
                        ),
                    )
                },
                None => None,
            }
        } else {
            None
        }
    } else if str_eq(k, "enum") {
        if is_tok(t, i + 1, TokKind::Ident) && is_tok(t, i + 2, TokKind::LBrace) {
            match parse_enum_body(s, t, i + 3) {
                Some((es, j)) => Some(
                    (Block::Enum(RawEnum { name: tok_string(s, t, i + 1), entries: es }), j),
                ),
                None => None,
            }
        } else {
            None
        }
    } else if str_eq(k, "type") {
        if is_tok(t, i + 1, TokKind::Ident) && is_tok(t, i + 2, TokKind::Eq) && is_tok(
            t,
            i + 3,
            TokKind::Ident,
        ) {
            match parse_field_attrs(s, t, i + 4) {
                Some((attrs, j)) => Some(
                    (
                        Block::TypeAlias(
                            RawTypeAlias {
                                name: tok_string(s, t, i + 1),
                                base_type: tok_string(s, t, i + 3),
                                attrs,
                            },
                        ),
                        j,
                    ),
                ),
                None => None,
            }
        } else {
            None
        }
    } else {
        None
    }
}

// ── Documents ──────────────────────────────────────────────────────────────

/// A parsed schema: the database its datasource selects, its model, view,
/// enum and type-alias blocks in order, and the token ranges of those blocks.
pub struct SpecDoc {
    pub database: SpecDatabaseKind,
    pub models: Seq<SpecRawModel>,
    pub views: Seq<SpecRawModel>,
    pub enums: Seq<SpecRawEnum>,
    pub aliases: Seq<SpecRawTypeAlias>,
    pub ranges: Seq<(usize, usize)>,
}

pub open spec fn spec_empty_doc() -> SpecDoc {
    SpecDoc {
        database: SpecDatabaseKind::PostgreSql,
        models: Seq::empty(),
        views: Seq::empty(),
        enums: Seq::empty(),
        aliases: Seq::empty(),
        ranges: Seq::empty(),
    }
}

/// Adds a block spanning tokens `i..j`; a datasource selects the database
/// (the last one wins) and a generator is ignored.
pub open spec fn spec_add_block(d: SpecDoc, b: SpecBlock, i: int, j: int) -> SpecDoc {
    let r = (i as usize, j as usize);
    match b {
        SpecBlock::Datasource(c) => SpecDoc { database: spec_datasource_kind(c), ..d },
        SpecBlock::Generator(_) => d,
        SpecBlock::Model(m) => SpecDoc { models: d.models.push(m), ranges: d.ranges.push(r), ..d },
        SpecBlock::View(m) => SpecDoc { views: d.views.push(m), ranges: d.ranges.push(r), ..d },
        SpecBlock::Enum(e) => SpecDoc { enums: d.enums.push(e), ranges: d.ranges.push(r), ..d },
        SpecBlock::TypeAlias(a) => SpecDoc {
            aliases: d.aliases.push(a),
            ranges: d.ranges.push(r),
            ..d
        },
    }
}

/// The blocks from token `i` to the end of the input.
pub open spec fn spec_doc(s: Seq<char>, t: Seq<Tok>, i: int, d: SpecDoc) -> Option<SpecDoc>
    decreases t.len() - i,
{
    if i < 0 || i > t.len() {
        None
    } else if i == t.len() {
        Some(d)
    } else {
        match spec_block(s, t, i) {
            Some((b, j)) => if i < j <= t.len() {
                spec_doc(s, t, j, spec_add_block(d, b, i, j))
            } else {
                None
            },
            None => None,
        }
    }
}

/// The token at which reading blocks from token `i` fails: the first token of
/// the block that cannot be read; -1 when every block can be read.
pub open spec fn spec_doc_fail(s: Seq<char>, t: Seq<Tok>, i: int) -> int
    decreases t.len() - i,
{
    if i < 0 || i >= t.len() {
        -1
    } else {
        match spec_block(s, t, i) {
            Some((b, j)) => if i < j <= t.len() {
                spec_doc_fail(s, t, j)
            } else {
                i
            },
            None => i,
        }
    }
}

/// The document that a token sequence spells; `None` if it is not a schema.
pub open spec fn spec_parse_doc(s: Seq<char>, t: Seq<Tok>) -> Option<SpecDoc> {
    spec_doc(s, t, 0, spec_empty_doc())
}

/// A parsed schema.
pub struct Doc {
    pub database: DatabaseKind,
    pub models: Vec<RawModel>,
    pub views: Vec<RawModel>,
    pub enums: Vec<RawEnum>,
    pub aliases: Vec<RawTypeAlias>,
    pub ranges: Vec<(usize, usize)>,
}

impl DeepView for Doc {
    type V = SpecDoc;

    open spec fn deep_view(&self) -> SpecDoc {
        SpecDoc {
            database: self.database.deep_view(),
            models: self.models.deep_view(),
            views: self.views.deep_view(),
            enums: self.enums.deep_view(),
            aliases: self.aliases.deep_view(),
            ranges: self.ranges@,
        }
    }
}

fn add_block(d: &mut Doc, b: Block, i: usize, j: usize)
    ensures
        final(d).deep_view() == spec_add_block(old(d).deep_view(), b.deep_view(), i as int, j as int),
{
    match b {
        Block::Datasource(c) => {
            d.database = datasource_kind(&c);
        },
        Block::Generator(_) => {},
        Block::Model(m) => {
            let ghost m0 = d.models;
            d.models.push(m);
            proof {
                lemma_dv_push(m0, d.models, m);
            }
            d.ranges.push((i, j));
        },
        Block::View(m) => {
            let ghost m0 = d.views;
            d.views.push(m);
            proof {
                lemma_dv_push(m0, d.views, m);
            }
            d.ranges.push((i, j));
        },
        Block::Enum(e) => {
            let ghost e0 = d.enums;
            d.enums.push(e);
            proof {
                lemma_dv_push(e0, d.enums, e);
            }
            d.ranges.push((i, j));
        },
        Block::TypeAlias(a) => {
            let ghost a0 = d.aliases;
            d.aliases.push(a);
            proof {
                lemma_dv_push(a0, d.aliases, a);
            }
            d.ranges.push((i, j));
        },
    }
}

/// Parses a whole token sequence into a document; the error is the first
/// token of the block that cannot be read.
pub fn parse_doc(s: &Vec<char>, t: &Vec<Tok>) -> (r: Result<Doc, usize>)
    requires
        toks_wf(s@, t@),
    ensures
        match r {
            Ok(d) => spec_parse_doc(s@, t@) == Some(d.deep_view()),
            Err(k) => spec_parse_doc(s@, t@) is None && k == spec_doc_fail(s@, t@, 0) && k
                < t@.len(),
        },
{
    let mut d = Doc {
        database: DatabaseKind::PostgreSql,
        models: Vec::new(),
        views: Vec::new(),
        enums: Vec::new(),
        aliases: Vec::new(),
        ranges: Vec::new(),
    };
    proof {
        lemma_dv_empty(d.models);
        lemma_dv_empty(d.views);
        lemma_dv_empty(d.enums);
        lemma_dv_empty(d.aliases);
        assert(d.deep_view() =~= spec_empty_doc());
    }
    let mut cur: usize = 0;
    while cur < t.len()
        invariant
            toks_wf(s@, t@),
            cur <= t@.len(),
            spec_parse_doc(s@, t@) == spec_doc(s@, t@, cur as int, d.deep_view()),
            spec_doc_fail(s@, t@, 0) == spec_doc_fail(s@, t@, cur as int),
        decreases t@.len() - cur,
    {
        match parse_block(s, t, cur) {
            Some((b, j)) => {
                if cur < j && j <= t.len() {
                    add_block(&mut d, b, cur, j);
                    cur = j;
                } else {
                    return Err(cur);
                }
            },
            None => {
                return Err(cur);
            },
        }
    }
    Ok(d)
}

// ── Integer literals out of range ──────────────────────────────────────────

/// The first integer token in `k..hi` whose value does not fit in an `i64`.
pub open spec fn spec_bad_int_in(s: Seq<char>, t: Seq<Tok>, k: int, hi: int) -> Option<int>
    decreases hi - k,
{
    if k < 0 || k >= hi || k >= t.len() {
        None
    } else if t[k].kind == TokKind::Int && spec_parse_int(text(s, t, k)) is None {
        Some(k)
    } else {
        spec_bad_int_in(s, t, k + 1, hi)
    }
}

/// The first integer token, in the given block ranges, whose value does not fit in an `i64`.
pub open spec fn spec_first_bad(s: Seq<char>, t: Seq<Tok>, ranges: Seq<(usize, usize)>) -> Option<int>
    decreases ranges.len(),
{
    if ranges.len() == 0 {
        None
    } else {
        match spec_bad_int_in(s, t, ranges[0].0 as int, ranges[0].1 as int) {
            Some(k) => Some(k),
            None => spec_first_bad(s, t, ranges.drop_first()),
        }
    }
}

pub proof fn lemma_bad_int_in(s: Seq<char>, t: Seq<Tok>, k: int, hi: int)
    ensures
        spec_bad_int_in(s, t, k, hi) matches Some(b) ==> 0 <= b < t.len() && t[b].kind
            == TokKind::Int,
    decreases hi - k,
{
    if !(k < 0 || k >= hi || k >= t.len()) {
        lemma_bad_int_in(s, t, k + 1, hi);
    }
}

pub proof fn lemma_first_bad(s: Seq<char>, t: Seq<Tok>, ranges: Seq<(usize, usize)>)
    ensures
        spec_first_bad(s, t, ranges) matches Some(b) ==> 0 <= b < t.len(),
    decreases ranges.len(),
{
    if ranges.len() > 0 {
        lemma_bad_int_in(s, t, ranges[0].0 as int, ranges[0].1 as int);
        lemma_first_bad(s, t, ranges.drop_first());
    }
}

fn bad_int_in(s: &Vec<char>, t: &Vec<Tok>, lo: usize, hi: usize) -> (r: Option<usize>)
    requires
        toks_wf(s@, t@),
    ensures
        r == match spec_bad_int_in(s@, t@, lo as int, hi as int) {
            Some(b) => Some(b as usize),
            None => None::<usize>,
        },
{
    let mut k = lo;
    while k < hi && k < t.len()
        invariant
            toks_wf(s@, t@),
            lo <= k,
            spec_bad_int_in(s@, t@, lo as int, hi as int) == spec_bad_int_in(
                s@,
                t@,
                k as int,
                hi as int,
            ),
        decreases hi - k,
    {
        let tk = t[k];
        if tk.kind == TokKind::Int && parse_int(s, tk.start, tk.end).is_none() {
            return Some(k);
        }
        k = k + 1;
    }
    None
}

/// The first integer token, in the given block ranges, whose value does not fit in an `i64`.
pub fn first_bad(s: &Vec<char>, t: &Vec<Tok>, ranges: &Vec<(usize, usize)>) -> (r: Option<usize>)
    requires
        toks_wf(s@, t@),
    ensures
        r == match spec_first_bad(s@, t@, ranges@) {
            Some(b) => Some(b as usize),
            None => None::<usize>,
        },
{
    let mut i: usize = 0;
    assert(ranges@.skip(0) =~= ranges@);
    while i < ranges.len()
        invariant
            toks_wf(s@, t@),
            i <= ranges@.len(),
            spec_first_bad(s@, t@, ranges@) == spec_first_bad(s@, t@, ranges@.skip(i as int)),
        decreases ranges@.len() - i,
    {
        assert(ranges@.skip(i as int).drop_first() =~= ranges@.skip(i + 1));
        let (lo, hi) = ranges[i];
        match bad_int_in(s, t, lo, hi) {
            Some(b) => {
                return Some(b);
            },
            None => {},
        }
        i = i + 1;
    }
    None
}

} // verus!
