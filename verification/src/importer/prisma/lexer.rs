//! Tokens of the Prisma Schema Language.
//!
//! Whitespace (space, tab, newline, carriage return) separates tokens and
//! `//` starts a comment that runs to the end of the line. The tokens are
//! identifiers (`[A-Za-z_][A-Za-z0-9_]*`), string literals (`"..."`, where a
//! backslash escapes the next character), integers (`-?[0-9]+`), decimals
//! (`-?[0-9]+.[0-9]+`), field attributes (`@path`), block attributes
//! (`@@path`), where a path is identifiers joined by `.`, and the punctuation
//! `{ } ( ) [ ] , : = ?`.
use vstd::prelude::*;

verus! {

/// The kind of a token.
#[derive(Debug, Clone, Copy, PartialEq, Eq, Structural)]
pub enum TokKind {
    Ident,
    Str,
    Int,
    Float,
    Attr,
    BlockAttr,
    LBrace,
    RBrace,
    LParen,
    RParen,
    LBracket,
    RBracket,
    Comma,
    Colon,
    Eq,
    Question,
}

/// A token: its kind and the span of its text in the source characters.
///
/// The text of a string literal is what lies between the quotes; that of an
/// attribute is its path, without the `@` or `@@`.
#[derive(Debug, Clone, Copy, PartialEq, Eq)]
pub struct Tok {
    pub kind: TokKind,
    pub start: usize,
    pub end: usize,
}

pub open spec fn is_ws(c: char) -> bool {
    c == ' ' || c == '\t' || c == '\n' || c == '\r'
}

pub open spec fn is_digit(c: char) -> bool {
    '0' <= c && c <= '9'
}

pub open spec fn is_ident_start(c: char) -> bool {
    ('a' <= c && c <= 'z') || ('A' <= c && c <= 'Z') || c == '_'
}

pub open spec fn is_ident_char(c: char) -> bool {
    is_ident_start(c) || is_digit(c)
}

/// The end of the run of identifier characters starting at `i`.
pub open spec fn ident_end(s: Seq<char>, i: int) -> int
    decreases s.len() - i,
{
    if 0 <= i < s.len() && is_ident_char(s[i]) {
        ident_end(s, i + 1)
    } else {
        i
    }
}

/// The end of the run of digits starting at `i`.
pub open spec fn digits_end(s: Seq<char>, i: int) -> int
    decreases s.len() - i,
{
    if 0 <= i < s.len() && is_digit(s[i]) {
        digits_end(s, i + 1)
    } else {
        i
    }
}

/// The position of the first newline at or after `i`, or the end of the input.
pub open spec fn line_end(s: Seq<char>, i: int) -> int
    decreases s.len() - i,
{
    if 0 <= i < s.len() && s[i] != '\n' {
        line_end(s, i + 1)
    } else {
        i
    }
}

/// The position of the closing quote of a string literal whose text starts at `i`.
pub open spec fn string_end(s: Seq<char>, i: int) -> Option<int>
    decreases s.len() - i,
{
    if i < 0 || i >= s.len() {
        None
    } else if s[i] == '"' {
        Some(i)
    } else if s[i] == '\\' {
        if i + 2 <= s.len() {
            string_end(s, i + 2)
        } else {
            None
        }
    } else {
        string_end(s, i + 1)
    }
}

/// The end of an attribute path (identifiers joined by `.`) starting at `i`.
pub open spec fn path_end(s: Seq<char>, i: int) -> Option<int>
    decreases s.len() - i,
{
    if 0 <= i < s.len() && is_ident_start(s[i]) {
        let e = ident_end(s, i + 1);
        if e < s.len() && s[e] == '.' && e + 1 > i {
            path_end(s, e + 1)
        } else {
            Some(e)
        }
    } else {
        None
    }
}

/// The kind of a one-character punctuation token.
pub open spec fn punct_kind(c: char) -> Option<TokKind> {
    if c == '{' {
        Some(TokKind::LBrace)
    } else if c == '}' {
        Some(TokKind::RBrace)
    } else if c == '(' {
        Some(TokKind::LParen)
    } else if c == ')' {
        Some(TokKind::RParen)
    } else if c == '[' {
        Some(TokKind::LBracket)
    } else if c == ']' {
        Some(TokKind::RBracket)
    } else if c == ',' {
        Some(TokKind::Comma)
    } else if c == ':' {
        Some(TokKind::Colon)
    } else if c == '=' {
        Some(TokKind::Eq)
    } else if c == '?' {
        Some(TokKind::Question)
    } else {
        None
    }
}

pub open spec fn mk_tok(kind: TokKind, start: int, end: int) -> Tok {
    Tok { kind, start: start as usize, end: end as usize }
}

/// The token that starts at `i` and the position after it.
pub open spec fn lex_token(s: Seq<char>, i: int) -> Option<(Tok, int)> {
    let c = s[i];
    if is_ident_start(c) {
        let e = ident_end(s, i + 1);
        Some((mk_tok(TokKind::Ident, i, e), e))
    } else if is_digit(c) || (c == '-' && i + 1 < s.len() && is_digit(s[i + 1])) {
        let ds = if c == '-' {
            i + 1
        } else {
            i
        };
        let e = digits_end(s, ds);
        if e + 1 < s.len() && s[e] == '.' && is_digit(s[e + 1]) {
            let f = digits_end(s, e + 1);
            Some((mk_tok(TokKind::Float, i, f), f))
        } else {
            Some((mk_tok(TokKind::Int, i, e), e))
        }
    } else if c == '"' {
        match string_end(s, i + 1) {
            Some(e) => Some((mk_tok(TokKind::Str, i + 1, e), e + 1)),
            None => None,
        }
    } else if c == '@' {
        if i + 1 < s.len() && s[i + 1] == '@' {
            match path_end(s, i + 2) {
                Some(e) => Some((mk_tok(TokKind::BlockAttr, i + 2, e), e)),
                None => None,
            }
        } else {
            match path_end(s, i + 1) {
                Some(e) => Some((mk_tok(TokKind::Attr, i + 1, e), e)),
                None => None,
            }
        }
    } else {
        match punct_kind(c) {
            Some(k) => Some((mk_tok(k, i, i + 1), i + 1)),
            None => None,
        }
    }
}

/// The tokens of `s` from position `i`; `None` if some character cannot start a token.
pub open spec fn lex_from(s: Seq<char>, i: int) -> Option<Seq<Tok>>
    decreases s.len() - i,
{
    if i < 0 || i >= s.len() {
        Some(Seq::empty())
    } else if is_ws(s[i]) {
        lex_from(s, i + 1)
    } else if s[i] == '/' && i + 1 < s.len() && s[i + 1] == '/' {
        let e = line_end(s, i + 2);
        if i < e <= s.len() {
            lex_from(s, e)
        } else {
            None
        }
    } else {
        match lex_token(s, i) {
            Some((t, j)) => if i < j <= s.len() {
                match lex_from(s, j) {
                    Some(rest) => Some(seq![t] + rest),
                    None => None,
                }
            } else {
                None
            },
            None => None,
        }
    }
}

/// The position at which splitting `s` into tokens from `i` fails: a
/// character that cannot start a token, or an unterminated literal or
/// attribute; -1 when it does not fail.
pub open spec fn lex_fail(s: Seq<char>, i: int) -> int
    decreases s.len() - i,
{
    if i < 0 || i >= s.len() {
        -1
    } else if is_ws(s[i]) {
        lex_fail(s, i + 1)
    } else if s[i] == '/' && i + 1 < s.len() && s[i + 1] == '/' {
        let e = line_end(s, i + 2);
        if i < e <= s.len() {
            lex_fail(s, e)
        } else {
            i
        }
    } else {
        match lex_token(s, i) {
            Some((t, j)) => if i < j <= s.len() {
                lex_fail(s, j)
            } else {
                i
            },
            None => i,
        }
    }
}

/// The tokens of a whole source text.
pub open spec fn spec_lex(s: Seq<char>) -> Option<Seq<Tok>> {
    lex_from(s, 0)
}

/// Every token's span lies within the source and starts at one of its characters.
pub open spec fn toks_wf(s: Seq<char>, t: Seq<Tok>) -> bool {
    forall|k: int|
        0 <= k < t.len() ==> #[trigger] t[k].start <= t[k].end <= s.len() && t[k].start < s.len()
}

// ── Lemmas ─────────────────────────────────────────────────────────────────

pub proof fn lemma_ident_end(s: Seq<char>, i: int)
    requires
        0 <= i <= s.len(),
    ensures
        i <= ident_end(s, i) <= s.len(),
    decreases s.len() - i,
{
    if i < s.len() && is_ident_char(s[i]) {
        lemma_ident_end(s, i + 1);
    }
}

pub proof fn lemma_digits_end(s: Seq<char>, i: int)
    requires
        0 <= i <= s.len(),
    ensures
        i <= digits_end(s, i) <= s.len(),
    decreases s.len() - i,
{
    if i < s.len() && is_digit(s[i]) {
        lemma_digits_end(s, i + 1);
    }
}

pub proof fn lemma_line_end(s: Seq<char>, i: int)
    requires
        0 <= i <= s.len(),
    ensures
        i <= line_end(s, i) <= s.len(),
    decreases s.len() - i,
{
    if i < s.len() && s[i] != '\n' {
        lemma_line_end(s, i + 1);
    }
}

pub proof fn lemma_string_end(s: Seq<char>, i: int)
    ensures
        string_end(s, i) matches Some(e) ==> 0 <= i <= e < s.len(),
    decreases s.len() - i,
{
    if i < 0 || i >= s.len() {
    } else if s[i] == '"' {
    } else if s[i] == '\\' {
        if i + 2 <= s.len() {
            lemma_string_end(s, i + 2);
        }
    } else {
        lemma_string_end(s, i + 1);
    }
}

pub proof fn lemma_path_end(s: Seq<char>, i: int)
    ensures
        path_end(s, i) matches Some(e) ==> 0 <= i < e <= s.len(),
    decreases s.len() - i,
{
    if 0 <= i < s.len() && is_ident_start(s[i]) {
        lemma_ident_end(s, i + 1);
        let e = ident_end(s, i + 1);
        if e < s.len() && s[e] == '.' && e + 1 > i {
            lemma_path_end(s, e + 1);
        }
    }
}

pub proof fn lemma_lex_token(s: Seq<char>, i: int)
    requires
        0 <= i < s.len(),
        s.len() <= usize::MAX,
    ensures
        lex_token(s, i) matches Some((t, j)) ==> i < j <= s.len() && t.start <= t.end <= s.len()
            && t.start < s.len(),
{
    let c = s[i];
    if is_ident_start(c) {
        lemma_ident_end(s, i + 1);
    } else if is_digit(c) || (c == '-' && i + 1 < s.len() && is_digit(s[i + 1])) {
        let ds = if c == '-' {
            i + 1
        } else {
            i
        };
        lemma_digits_end(s, ds + 1);
        let e = digits_end(s, ds);
        if e + 1 < s.len() && s[e] == '.' && is_digit(s[e + 1]) {
            lemma_digits_end(s, e + 1);
        }
    } else if c == '"' {
        lemma_string_end(s, i + 1);
    } else if c == '@' {
        if i + 1 < s.len() && s[i + 1] == '@' {
            lemma_path_end(s, i + 2);
        } else {
            lemma_path_end(s, i + 1);
        }
    }
}

pub proof fn lemma_lex_wf(s: Seq<char>, i: int)
    requires
        s.len() <= usize::MAX,
    ensures
        lex_from(s, i) matches Some(t) ==> toks_wf(s, t),
    decreases s.len() - i,
{
    if i < 0 || i >= s.len() {
    } else if is_ws(s[i]) {
        lemma_lex_wf(s, i + 1);
    } else if s[i] == '/' && i + 1 < s.len() && s[i + 1] == '/' {
        let e = line_end(s, i + 2);
        if i < e <= s.len() {
            lemma_lex_wf(s, e);
        }
    } else {
        lemma_lex_token(s, i);
        match lex_token(s, i) {
            Some((t, j)) => if i < j <= s.len() {
                lemma_lex_wf(s, j);
                match lex_from(s, j) {
                    Some(rest) => {
                        let all = seq![t] + rest;
                        assert forall|k: int| 0 <= k < all.len() implies #[trigger] all[k].start
                            <= all[k].end <= s.len() && all[k].start < s.len() by {
                            if k > 0 {
                                assert(all[k] == rest[k - 1]);
                            } else {
                                assert(all[k] == t);
                            }
                        }
                        assert(toks_wf(s, all));
                    },
                    None => {},
                }
            },
            None => {},
        }
    }
}

// ── Executable lexer ───────────────────────────────────────────────────────

fn char_is_ws(c: char) -> (r: bool)
    ensures
        r == is_ws(c),
{
    c == ' ' || c == '\t' || c == '\n' || c == '\r'
}

fn char_is_digit(c: char) -> (r: bool)
    ensures
        r == is_digit(c),
{
    '0' <= c && c <= '9'
}

fn char_starts_ident(c: char) -> (r: bool)
    ensures
        r == is_ident_start(c),
{
    ('a' <= c && c <= 'z') || ('A' <= c && c <= 'Z') || c == '_'
}

fn char_is_ident(c: char) -> (r: bool)
    ensures
        r == is_ident_char(c),
{
    char_starts_ident(c) || char_is_digit(c)
}

fn scan_ident(s: &Vec<char>, i: usize) -> (r: usize)
    requires
        i <= s@.len(),
    ensures
        r == ident_end(s@, i as int),
{
    let mut j = i;
    while j < s.len() && char_is_ident(s[j])
        invariant
            i <= j <= s@.len(),
            ident_end(s@, i as int) == ident_end(s@, j as int),
        decreases s@.len() - j,
    {
        j = j + 1;
    }
    j
}

fn scan_digits(s: &Vec<char>, i: usize) -> (r: usize)
    requires
        i <= s@.len(),
    ensures
        r == digits_end(s@, i as int),
{
    let mut j = i;
    while j < s.len() && char_is_digit(s[j])
        invariant
            i <= j <= s@.len(),
            digits_end(s@, i as int) == digits_end(s@, j as int),
        decreases s@.len() - j,
    {
        j = j + 1;
    }
    j
}

fn scan_line(s: &Vec<char>, i: usize) -> (r: usize)
    requires
        i <= s@.len(),
    ensures
        r == line_end(s@, i as int),
{
    let mut j = i;
    while j < s.len() && s[j] != '\n'
        invariant
            i <= j <= s@.len(),
            line_end(s@, i as int) == line_end(s@, j as int),
        decreases s@.len() - j,
    {
        j = j + 1;
    }
    j
}

fn scan_string(s: &Vec<char>, i: usize) -> (r: Option<usize>)
    requires
        i <= s@.len(),
    ensures
        r == match string_end(s@, i as int) {
            Some(e) => Some(e as usize),
            None => None::<usize>,
        },
{
    let mut j = i;
    while j < s.len()
        invariant
            i <= j <= s@.len(),
            string_end(s@, i as int) == string_end(s@, j as int),
        decreases s@.len() - j,
    {
        if s[j] == '"' {
            return Some(j);
        } else if s[j] == '\\' {
            if s.len() - j >= 2 {
                j = j + 2;
            } else {
                return None;
            }
        } else {
            j = j + 1;
        }
    }
    None
}

fn scan_path(s: &Vec<char>, i: usize) -> (r: Option<usize>)
    requires
        i <= s@.len(),
    ensures
        r == match path_end(s@, i as int) {
            Some(e) => Some(e as usize),
            None => None::<usize>,
        },
{
    let mut j = i;
    loop
        invariant
            i <= j <= s@.len(),
            path_end(s@, i as int) == path_end(s@, j as int),
        decreases s@.len() - j,
    {
        if j < s.len() && char_starts_ident(s[j]) {
            let e = scan_ident(s, j + 1);
            proof {
                lemma_ident_end(s@, j + 1);
            }
            if e < s.len() && s[e] == '.' {
                j = e + 1;
            } else {
                return Some(e);
            }
        } else {
            return None;
        }
    }
}

fn punct_of(c: char) -> (r: Option<TokKind>)
    ensures
        r == punct_kind(c),
{
    if c == '{' {
        Some(TokKind::LBrace)
    } else if c == '}' {
        Some(TokKind::RBrace)
    } else if c == '(' {
        Some(TokKind::LParen)
    } else if c == ')' {
        Some(TokKind::RParen)
    } else if c == '[' {
        Some(TokKind::LBracket)
    } else if c == ']' {
        Some(TokKind::RBracket)
    } else if c == ',' {
        Some(TokKind::Comma)
    } else if c == ':' {
        Some(TokKind::Colon)
    } else if c == '=' {
        Some(TokKind::Eq)
    } else if c == '?' {
        Some(TokKind::Question)
    } else {
        None
    }
}

fn next_token(s: &Vec<char>, i: usize) -> (r: Option<(Tok, usize)>)
    requires
        i < s@.len(),
    ensures
        r == match lex_token(s@, i as int) {
            Some((t, j)) => Some((t, j as usize)),
            None => None::<(Tok, usize)>,
        },
{
    let n = s.len();
    proof {
        lemma_lex_token(s@, i as int);
    }
    let c = s[i];
    if char_starts_ident(c) {
        let e = scan_ident(s, i + 1);
        Some((Tok { kind: TokKind::Ident, start: i, end: e }, e))
    } else if char_is_digit(c) || (c == '-' && i + 1 < s.len() && char_is_digit(s[i + 1])) {
        let ds = if c == '-' {
            i + 1
        } else {
            i
        };
        let e = scan_digits(s, ds);
        proof {
            lemma_digits_end(s@, ds as int);
        }
        if e < s.len() && e + 1 < s.len() && s[e] == '.' && char_is_digit(s[e + 1]) {
            let f = scan_digits(s, e + 1);
            Some((Tok { kind: TokKind::Float, start: i, end: f }, f))
        } else {
            Some((Tok { kind: TokKind::Int, start: i, end: e }, e))
        }
    } else if c == '"' {
        proof {
            lemma_string_end(s@, i + 1);
        }
        match scan_string(s, i + 1) {
            Some(e) => Some((Tok { kind: TokKind::Str, start: i + 1, end: e }, e + 1)),
            None => None,
        }
    } else if c == '@' {
        if i + 1 < s.len() && s[i + 1] == '@' {
            proof {
                lemma_path_end(s@, i + 2);
            }
            match scan_path(s, i + 2) {
                Some(e) => Some((Tok { kind: TokKind::BlockAttr, start: i + 2, end: e }, e)),
                None => None,
            }
        } else {
            proof {
                lemma_path_end(s@, i + 1);
            }
            match scan_path(s, i + 1) {
                Some(e) => Some((Tok { kind: TokKind::Attr, start: i + 1, end: e }, e)),
                None => None,
            }
        }
    } else {
        match punct_of(c) {
            Some(k) => Some((Tok { kind: k, start: i, end: i + 1 }, i + 1)),
            None => None,
        }
    }
}

pub open spec fn prepend(p: Seq<Tok>, r: Option<Seq<Tok>>) -> Option<Seq<Tok>> {
    match r {
        Some(x) => Some(p + x),
        None => None,
    }
}

/// Splits source characters into tokens; the error is the position of a
/// character that cannot start a token, or of an unterminated literal.
pub fn lex(s: &Vec<char>) -> (r: Result<Vec<Tok>, usize>)
    ensures
        r matches Ok(v) ==> spec_lex(s@) == Some(v@),
        r matches Err(p) ==> spec_lex(s@) is None && p == lex_fail(s@, 0) && p < s@.len(),
{
    let n = s.len();
    let mut toks: Vec<Tok> = Vec::new();
    let mut i: usize = 0;
    assert(prepend(toks@, lex_from(s@, 0)) =~= lex_from(s@, 0)) by {
        match lex_from(s@, 0) {
            Some(x) => {
                assert(toks@ + x =~= x);
            },
            None => {},
        }
    }
    while i < s.len()
        invariant
            i <= s@.len(),
            spec_lex(s@) == prepend(toks@, lex_from(s@, i as int)),
            lex_fail(s@, 0) == lex_fail(s@, i as int),
        decreases s@.len() - i,
    {
        let c = s[i];
        if char_is_ws(c) {
            i = i + 1;
        } else if c == '/' && i + 1 < s.len() && s[i + 1] == '/' {
            let e = scan_line(s, i + 2);
            proof {
                lemma_line_end(s@, i + 2);
            }
            i = e;
        } else {
            match next_token(s, i) {
                Some((t, j)) => {
                    proof {
                        lemma_lex_token(s@, i as int);
                        match lex_from(s@, j as int) {
                            Some(rest) => {
                                assert(toks@.push(t) + rest =~= toks@ + (seq![t] + rest));
                            },
                            None => {},
                        }
                    }
                    toks.push(t);
                    i = j;
                },
                None => {
                    return Err(i);
                },
            }
        }
    }
    assert(toks@ + Seq::<Tok>::empty() =~= toks@);
    Ok(toks)
}

} // verus!
