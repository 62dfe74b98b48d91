//! Small verified string helpers.
use vstd::prelude::*;

verus! {

/// `String::push` appends one character to the end of the string.
pub assume_specification[ std::string::String::push ](s: &mut std::string::String, ch: char)
    ensures
        final(s)@ == old(s)@.push(ch),
;

/// Whether two strings hold the same characters.
pub fn str_eq(a: &str, b: &str) -> (r: bool)
    ensures
        r == (a@ == b@),
{
    let x = String::from_str(a);
    let y = String::from_str(b);
    x == y
}

/// Whether `prefix` is a prefix of `s`.
pub fn starts_with(s: &str, prefix: &str) -> (r: bool)
    ensures
        r == prefix@.is_prefix_of(s@),
{
    let n = prefix.unicode_len();
    let m = s.unicode_len();
    if n > m {
        return false;
    }
    let mut i: usize = 0;
    while i < n
        invariant
            n == prefix@.len(),
            m == s@.len(),
            n <= m,
            i <= n,
            forall|j: int| 0 <= j < i ==> prefix@[j] == s@[j],
        decreases n - i,
    {
        if prefix.get_char(i) != s.get_char(i) {
            return false;
        }
        i = i + 1;
    }
    true
}

/// The characters of `s` after its first `k` characters.
pub fn drop_chars(s: &str, k: usize) -> (r: String)
    requires
        k <= s@.len(),
    ensures
        r@ == s@.subrange(k as int, s@.len() as int),
{
    let n = s.unicode_len();
    String::from_str(s.substring_char(k, n))
}

/// The characters of a string slice, in order.
pub fn chars_of(s: &str) -> (r: Vec<char>)
    ensures
        r@ == s@,
{
    let mut v: Vec<char> = Vec::new();
    for c in it: s.chars()
        invariant
            v@ == it.seq().take(it.index() as int),
    {
        v.push(c);
    }
    v
}

/// The string made of `chars[lo..hi]`.
pub fn string_from(chars: &Vec<char>, lo: usize, hi: usize) -> (r: String)
    requires
        lo <= hi <= chars@.len(),
    ensures
        r@ == chars@.subrange(lo as int, hi as int),
{
    let mut r = String::new();
    let mut i = lo;
    while i < hi
        invariant
            lo <= i <= hi <= chars@.len(),
            r@ == chars@.subrange(lo as int, i as int),
        decreases hi - i,
    {
        r.push(chars[i]);
        assert(chars@.subrange(lo as int, i + 1) =~= chars@.subrange(lo as int, i as int).push(chars@[i as int]));
        i = i + 1;
    }
    r
}

/// The concatenation of two string slices.
pub fn concat(a: &str, b: &str) -> (r: String)
    ensures
        r@ == a@ + b@,
{
    let mut r = String::from_str(a);
    r.append(b);
    r
}


/// A copy of an optional string.
pub fn copy_opt_string(s: &Option<String>) -> (r: Option<String>)
    ensures
        r.deep_view() == s.deep_view(),
{
    match s {
        Some(x) => Some(x.clone()),
        None => None,
    }
}

/// A copy of a list of strings.
pub fn copy_strings(v: &Vec<String>) -> (r: Vec<String>)
    ensures
        r.deep_view() == v.deep_view(),
{
    let mut out: Vec<String> = Vec::new();
    let mut i: usize = 0;
    while i < v.len()
        invariant
            i <= v@.len(),
            out@.len() == i,
            out.deep_view() == v.deep_view().take(i as int),
        decreases v@.len() - i,
    {
        let c = v[i].clone();
        let ghost before = out@;
        out.push(c);
        assert(out@ == before.push(c));
        assert(out.deep_view() =~= v.deep_view().take(i + 1)) by {
            assert forall|j: int| 0 <= j < i + 1 implies out.deep_view()[j] == v.deep_view().take(i + 1)[j] by {
                if j < i {
                    assert(out@[j] == before[j]);
                }
            }
        }
        i = i + 1;
    }
    assert(v.deep_view().take(v@.len() as int) =~= v.deep_view());
    out
}

/// Pushing onto a vector pushes the element's model onto the vector's model.
pub proof fn lemma_dv_push<T: DeepView>(before: Vec<T>, after: Vec<T>, x: T)
    requires
        after@ == before@.push(x),
    ensures
        after.deep_view() == before.deep_view().push(x.deep_view()),
{
    assert(after.deep_view() =~= before.deep_view().push(x.deep_view())) by {
        assert forall|j: int| 0 <= j < after@.len() implies after.deep_view()[j]
            == before.deep_view().push(x.deep_view())[j] by {
            if j < before@.len() {
                assert(after@[j] == before@[j]);
            }
        }
    }
}

/// The model of an empty vector is empty.
pub proof fn lemma_dv_empty<T: DeepView>(v: Vec<T>)
    requires
        v@.len() == 0,
    ensures
        v.deep_view() == Seq::<T::V>::empty(),
{
    assert(v.deep_view() =~= Seq::<T::V>::empty());
}

/// Appending vectors appends their models.
pub proof fn lemma_dv_append<T: DeepView>(a: Vec<T>, b: Vec<T>, c: Vec<T>)
    requires
        c@ == a@ + b@,
    ensures
        c.deep_view() == a.deep_view() + b.deep_view(),
{
    assert(c.deep_view() =~= a.deep_view() + b.deep_view()) by {
        assert forall|j: int| 0 <= j < c@.len() implies c.deep_view()[j] == (a.deep_view()
            + b.deep_view())[j] by {
            if j < a@.len() {
                assert(c@[j] == a@[j]);
            } else {
                assert(c@[j] == b@[j - a@.len()]);
            }
        }
    }
}

/// Appends all elements of `b` to `a`.
pub fn append_all<T>(a: &mut Vec<T>, b: Vec<T>)
    ensures
        final(a)@ == old(a)@ + b@,
{
    let mut b = b;
    a.append(&mut b);
}

// ── Ordering ──────────────────────────────────────────────────────────────

/// Code-point lexicographic order (`a <= b`), which is also the byte order of
/// the strings' UTF-8 encodings.
pub open spec fn spec_str_le(a: Seq<char>, b: Seq<char>) -> bool
    decreases a.len(),
{
    if a.len() == 0 {
        true
    } else if b.len() == 0 {
        false
    } else if a[0] != b[0] {
        (a[0] as u32) < (b[0] as u32)
    } else {
        spec_str_le(a.drop_first(), b.drop_first())
    }
}

/// Whether `a` sorts before or equal to `b` in code-point lexicographic order.
pub fn str_le(a: &str, b: &str) -> (r: bool)
    ensures
        r == spec_str_le(a@, b@),
{
    let x = chars_of(a);
    let y = chars_of(b);
    let mut i: usize = 0;
    assert(x@.skip(0) =~= x@);
    assert(y@.skip(0) =~= y@);
    while i < x.len() && i < y.len()
        invariant
            i <= x@.len(),
            i <= y@.len(),
            x@ == a@,
            y@ == b@,
            spec_str_le(a@, b@) == spec_str_le(x@.skip(i as int), y@.skip(i as int)),
        decreases x@.len() - i,
    {
        assert(x@.skip(i as int).drop_first() =~= x@.skip(i + 1));
        assert(y@.skip(i as int).drop_first() =~= y@.skip(i + 1));
        if x[i] != y[i] {
            return (x[i] as u32) < (y[i] as u32);
        }
        i = i + 1;
    }
    i == x.len()
}

/// Code-point order is total.
pub proof fn lemma_str_le_total(a: Seq<char>, b: Seq<char>)
    ensures
        spec_str_le(a, b) || spec_str_le(b, a),
    decreases a.len(),
{
    if a.len() > 0 && b.len() > 0 {
        if a[0] == b[0] {
            lemma_str_le_total(a.drop_first(), b.drop_first());
        } else {
            vstd::utf8::char_u32_cast(a[0], a[0] as u32);
            vstd::utf8::char_u32_cast(b[0], b[0] as u32);
        }
    }
}

pub proof fn lemma_str_le_refl(a: Seq<char>)
    ensures
        spec_str_le(a, a),
    decreases a.len(),
{
    if a.len() > 0 {
        lemma_str_le_refl(a.drop_first());
    }
}

pub proof fn lemma_str_le_antisym(a: Seq<char>, b: Seq<char>)
    requires
        spec_str_le(a, b),
        spec_str_le(b, a),
    ensures
        a == b,
    decreases a.len(),
{
    if a.len() > 0 && b.len() > 0 {
        if a[0] == b[0] {
            lemma_str_le_antisym(a.drop_first(), b.drop_first());
            assert(a =~= seq![a[0]] + a.drop_first());
            assert(b =~= seq![b[0]] + b.drop_first());
        } else {
            vstd::utf8::char_u32_cast(a[0], a[0] as u32);
            vstd::utf8::char_u32_cast(b[0], b[0] as u32);
        }
    } else {
        assert(a.len() == 0 && b.len() == 0);
        assert(a =~= b);
    }
}

pub proof fn lemma_str_le_trans(a: Seq<char>, b: Seq<char>, c: Seq<char>)
    requires
        spec_str_le(a, b),
        spec_str_le(b, c),
    ensures
        spec_str_le(a, c),
    decreases a.len(),
{
    if a.len() > 0 && b.len() > 0 && c.len() > 0 {
        if a[0] == b[0] && b[0] == c[0] {
            lemma_str_le_trans(a.drop_first(), b.drop_first(), c.drop_first());
        } else {
            vstd::utf8::char_u32_cast(a[0], a[0] as u32);
            vstd::utf8::char_u32_cast(b[0], b[0] as u32);
            vstd::utf8::char_u32_cast(c[0], c[0] as u32);
        }
    }
}

// ── Positions and numbers in messages ─────────────────────────────────────

/// The character of a decimal digit.
pub open spec fn digit_char(d: nat) -> char {
    ((48 + d) as u8) as char
}

/// The decimal text of a natural number.
pub open spec fn spec_decimal(n: nat) -> Seq<char>
    decreases n,
{
    if n < 10 {
        seq![digit_char(n)]
    } else {
        spec_decimal(n / 10).push(digit_char(n % 10))
    }
}

/// The decimal text of a number.
pub fn decimal(n: usize) -> (r: String)
    ensures
        r@ == spec_decimal(n as nat),
    decreases n,
{
    let b: u8 = 48u8 + ((n % 10) as u8);
    let ch = b as char;
    let mut r = if n < 10 {
        String::new()
    } else {
        decimal(n / 10)
    };
    r.push(ch);
    proof {
        if n < 10 {
            assert(r@ =~= seq![digit_char(n as nat)]);
        }
    }
    r
}

/// The line and column (both counted from 1) of position `p` in `s`.
pub open spec fn spec_line_col(s: Seq<char>, p: int) -> (nat, nat)
    decreases p,
{
    if p <= 0 {
        (1, 1)
    } else {
        let (l, c) = spec_line_col(s, p - 1);
        if s[p - 1] == '\n' {
            (l + 1, 1)
        } else {
            (l, c + 1)
        }
    }
}

/// `line L, column C` for position `p` of `s`.
pub open spec fn spec_position(s: Seq<char>, p: int) -> Seq<char> {
    let (l, c) = spec_line_col(s, p);
    "line "@ + spec_decimal(l) + ", column "@ + spec_decimal(c)
}

/// `line L, column C` for position `p` of `s`.
pub fn position(s: &Vec<char>, p: usize) -> (r: String)
    requires
        p < s@.len(),
    ensures
        r@ == spec_position(s@, p as int),
{
    let n = s.len();
    let mut l: usize = 1;
    let mut c: usize = 1;
    let mut i: usize = 0;
    while i < p
        invariant
            i <= p < s@.len(),
            s@.len() == n,
            (l as nat, c as nat) == spec_line_col(s@, i as int),
            1 <= l <= i + 1,
            1 <= c <= i + 1,
        decreases p - i,
    {
        if s[i] == '\n' {
            l = l + 1;
            c = 1;
        } else {
            c = c + 1;
        }
        i = i + 1;
    }
    let a = concat("line ", decimal(l).as_str());
    let b = concat(a.as_str(), ", column ");
    concat(b.as_str(), decimal(c).as_str())
}


/// How many times `c` occurs in `s`.
pub open spec fn count_char(s: Seq<char>, c: char) -> nat
    decreases s.len(),
{
    if s.len() == 0 {
        0
    } else {
        count_char(s.drop_last(), c) + if s.last() == c {
            1nat
        } else {
            0nat
        }
    }
}

/// A position's line is one more than the number of newlines before it; its
/// column is its distance from the last newline before it (from the start of
/// the text, counted from 1, when there is none).
pub proof fn law_line_col(s: Seq<char>, p: int)
    requires
        0 <= p <= s.len(),
    ensures
        spec_line_col(s, p).0 == 1 + count_char(s.take(p), '\n'),
        spec_line_col(s, p).1 == p - crate::registry::last_index_of(s.take(p), '\n'),
    decreases p,
{
    if p > 0 {
        law_line_col(s, p - 1);
        assert(s.take(p).drop_last() =~= s.take(p - 1));
        assert(s.take(p).last() == s[p - 1]);
    } else {
        assert(s.take(0) =~= Seq::<char>::empty());
    }
}

} // verus!
