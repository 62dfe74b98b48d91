//! The ORMs known to the tool, and how a schema file's ORM is found.
use crate::importer::prisma::{import_result_matches, parse_schema};
use crate::importer::ImportError;
use crate::pivot::Schema;
use crate::text::{chars_of, string_from};
use vstd::prelude::*;

verus! {

/// The importers the tool can build.
#[derive(Debug, Clone, Copy, PartialEq, Eq, Structural)]
pub enum ImporterKind {
    /// The Prisma Schema Language importer.
    Prisma,
}

impl ImporterKind {
    /// Runs the importer on a schema text.
    pub fn import(&self, input: &str) -> (r: Result<Schema, ImportError>)
        ensures
            match self {
                ImporterKind::Prisma => import_result_matches(r, input@),
            },
    {
        match self {
            ImporterKind::Prisma => parse_schema(input),
        }
    }
}

/// Describes an ORM known to the tool — its CLI name, file extensions,
/// and optional importer/exporter.
pub struct OrmDescriptor {
    /// Lowercase CLI name used with `--from` / `--to`.
    pub name: &'static str,
    /// Human-readable name for display messages.
    pub display_name: &'static str,
    /// File extensions that identify this ORM's schema files.
    pub extensions: Vec<&'static str>,
    /// `true` when the extension alone is unambiguous (no confirmation needed).
    pub certain: bool,
    /// The importer, if this ORM can be used as a source.
    pub make_importer: Option<ImporterKind>,
    /// Whether this ORM can be used as a target (no exporter exists yet).
    pub can_export: bool,
}

/// Mathematical model of an [`OrmDescriptor`].
pub struct SpecOrmDescriptor {
    pub name: Seq<char>,
    pub display_name: Seq<char>,
    pub extensions: Seq<Seq<char>>,
    pub certain: bool,
    pub make_importer: Option<ImporterKind>,
    pub can_export: bool,
}

impl DeepView for OrmDescriptor {
    type V = SpecOrmDescriptor;

    open spec fn deep_view(&self) -> SpecOrmDescriptor {
        SpecOrmDescriptor {
            name: self.name@,
            display_name: self.display_name@,
            extensions: self.extensions.deep_view(),
            certain: self.certain,
            make_importer: self.make_importer,
            can_export: self.can_export,
        }
    }
}

/// All ORMs known to the tool: Prisma, recognised by `.prisma` files, with an
/// importer and no exporter.
pub open spec fn spec_orms() -> Seq<SpecOrmDescriptor> {
    seq![
        SpecOrmDescriptor {
            name: "prisma"@,
            display_name: "Prisma"@,
            extensions: seq!["prisma"@],
            certain: true,
            make_importer: Some(ImporterKind::Prisma),
            can_export: false,
        },
    ]
}

/// All ORMs known to the tool.
///
/// Adding a new ORM = adding one entry here (and in [`spec_orms`]).
pub fn orms() -> (r: Vec<OrmDescriptor>)
    ensures
        r.deep_view() == spec_orms(),
{
    let mut extensions: Vec<&'static str> = Vec::new();
    extensions.push("prisma");
    let d = OrmDescriptor {
        name: "prisma",
        display_name: "Prisma",
        extensions,
        certain: true,
        make_importer: Some(ImporterKind::Prisma),
        can_export: false,
    };
    let mut r: Vec<OrmDescriptor> = Vec::new();
    r.push(d);
    proof {
        assert(d.extensions.deep_view() =~= seq!["prisma"@]);
        assert(r.deep_view() =~= spec_orms());
    }
    r
}

// ── File extensions ────────────────────────────────────────────────────────

/// The index of the last `c` in `s`, or -1 when there is none.
pub open spec fn last_index_of(s: Seq<char>, c: char) -> int
    decreases s.len(),
{
    if s.len() == 0 {
        -1
    } else if s.last() == c {
        s.len() - 1
    } else {
        last_index_of(s.drop_last(), c)
    }
}

pub proof fn lemma_last_index_of(s: Seq<char>, c: char)
    ensures
        -1 <= last_index_of(s, c) < s.len(),
        last_index_of(s, c) >= 0 ==> s[last_index_of(s, c)] == c,
        forall|j: int| last_index_of(s, c) < j < s.len() ==> s[j] != c,
    decreases s.len(),
{
    if s.len() > 0 && s.last() != c {
        lemma_last_index_of(s.drop_last(), c);
        assert forall|j: int| last_index_of(s, c) < j < s.len() implies s[j] != c by {
            if j < s.len() - 1 {
                assert(s[j] == s.drop_last()[j]);
            }
        }
    }
}

/// The file name of a path, as `std::path::Path::file_name` gives it on Unix:
/// the last `/`-separated component once empty and `.` components are dropped;
/// none when no component is left or the last one is `..`.
pub open spec fn spec_file_name(p: Seq<char>) -> Option<Seq<char>>
    decreases p.len(),
{
    let k = last_index_of(p, '/');
    let seg = p.subrange(k + 1, p.len() as int);
    if p.len() == 0 {
        None
    } else if seg.len() == 0 || seg == "."@ {
        if 0 <= k < p.len() {
            spec_file_name(p.subrange(0, k))
        } else {
            None
        }
    } else if seg == ".."@ {
        None
    } else {
        Some(seg)
    }
}

/// The extension of a file name, as `std::path::Path::extension` gives it:
/// what follows the last `.`; none when there is no `.`, or when the only `.`
/// begins the name.
pub open spec fn spec_name_extension(name: Seq<char>) -> Option<Seq<char>> {
    let d = last_index_of(name, '.');
    if d <= 0 {
        None
    } else {
        Some(name.subrange(d + 1, name.len() as int))
    }
}

/// The extension of a path's file name.
pub open spec fn spec_path_extension(p: Seq<char>) -> Option<Seq<char>> {
    match spec_file_name(p) {
        Some(n) => spec_name_extension(n),
        None => None,
    }
}

fn last_index_in(s: &Vec<char>, lo: usize, hi: usize, c: char) -> (r: Option<usize>)
    requires
        lo <= hi <= s@.len(),
    ensures
        match r {
            Some(k) => lo <= k < hi && last_index_of(s@.subrange(lo as int, hi as int), c)
                == k - lo,
            None => last_index_of(s@.subrange(lo as int, hi as int), c) == -1,
        },
{
    let mut j = hi;
    while j > lo
        invariant
            lo <= j <= hi <= s@.len(),
            last_index_of(s@.subrange(lo as int, hi as int), c) == last_index_of(
                s@.subrange(lo as int, j as int),
                c,
            ),
        decreases j,
    {
        assert(s@.subrange(lo as int, j as int).drop_last() =~= s@.subrange(lo as int, j - 1));
        if s[j - 1] == c {
            return Some(j - 1);
        }
        j = j - 1;
    }
    None
}

fn is_dots(s: &Vec<char>, lo: usize, hi: usize, n: usize) -> (r: bool)
    requires
        lo <= hi <= s@.len(),
        1 <= n <= 2,
    ensures
        r == (s@.subrange(lo as int, hi as int) == (if n == 1 { "."@ } else { ".."@ })),
{
    proof {
        reveal_strlit(".");
        reveal_strlit("..");
    }
    if hi - lo != n {
        proof {
            let d = if n == 1 { "."@ } else { ".."@ };
            assert(s@.subrange(lo as int, hi as int).len() != d.len());
        }
        return false;
    }
    let r = s[lo] == '.' && (n == 1 || s[lo + 1] == '.');
    proof {
        let seg = s@.subrange(lo as int, hi as int);
        let d = if n == 1 { "."@ } else { ".."@ };
        if r {
            assert(seg =~= d);
        } else {
            assert(seg[0] != d[0] || seg[1] != d[1]);
        }
    }
    r
}

/// The extension of a path's file name (`std::path::Path::extension`, Unix rules).
pub fn path_extension(path: &str) -> (r: Option<String>)
    ensures
        r.deep_view() == spec_path_extension(path@),
{
    let s = chars_of(path);
    let n = s.len();
    let mut hi = n;
    assert(s@.subrange(0, n as int) =~= s@);
    let ghost whole = s@;
    let mut name_end: usize = 0;
    let mut name_start: usize = 0;
    loop
        invariant
            s@ == whole,
            whole == path@,
            hi <= s@.len(),
            spec_file_name(whole) == spec_file_name(s@.subrange(0, hi as int)),
        ensures
            name_start <= name_end <= s@.len(),
            spec_file_name(whole) == Some(s@.subrange(name_start as int, name_end as int)),
        decreases hi,
    {
        let ghost p = s@.subrange(0, hi as int);
        if hi == 0 {
            return None;
        }
        let k = last_index_in(&s, 0, hi, '/');
        proof {
            lemma_last_index_of(p, '/');
        }
        let start = match k {
            Some(k) => k + 1,
            None => 0,
        };
        assert(p.subrange(last_index_of(p, '/') + 1, p.len() as int) =~= s@.subrange(
            start as int,
            hi as int,
        ));
        if start == hi || is_dots(&s, start, hi, 1) {
            match k {
                Some(k) => {
                    assert(p.subrange(0, k as int) =~= s@.subrange(0, k as int));
                    hi = k;
                },
                None => {
                    return None;
                },
            }
        } else if is_dots(&s, start, hi, 2) {
            return None;
        } else {
            name_start = start;
            name_end = hi;
            break;
        }
    }
    let ghost name = s@.subrange(name_start as int, name_end as int);
    assert(spec_file_name(whole) == Some(name));
    let d = last_index_in(&s, name_start, name_end, '.');
    match d {
        Some(d) => {
            if d == name_start {
                None
            } else {
                assert(name.subrange(d - name_start + 1, name.len() as int) =~= s@.subrange(
                    d + 1,
                    name_end as int,
                ));
                Some(string_from(&s, d + 1, name_end))
            }
        },
        None => None,
    }
}

// ── Lookups ────────────────────────────────────────────────────────────────

/// The first descriptor of `ds` that lists the extension `ext`.
pub open spec fn spec_first_with_extension(ds: Seq<SpecOrmDescriptor>, ext: Seq<char>) -> Option<
    SpecOrmDescriptor,
>
    decreases ds.len(),
{
    if ds.len() == 0 {
        None
    } else if ds[0].extensions.contains(ext) {
        Some(ds[0])
    } else {
        spec_first_with_extension(ds.drop_first(), ext)
    }
}

/// The ORM that a path's extension identifies.
pub open spec fn spec_detect(path: Seq<char>) -> Option<SpecOrmDescriptor> {
    match spec_path_extension(path) {
        Some(ext) => spec_first_with_extension(spec_orms(), ext),
        None => None,
    }
}

/// ASCII lower case of a character; other characters are unchanged.
pub open spec fn spec_ascii_lower(c: char) -> char {
    if 'A' <= c <= 'Z' {
        ((c as u32) + 32) as char
    } else {
        c
    }
}

/// Whether two strings are equal up to ASCII case (`str::eq_ignore_ascii_case`).
pub open spec fn spec_eq_ignore_ascii_case(a: Seq<char>, b: Seq<char>) -> bool {
    a.len() == b.len() && forall|i: int|
        0 <= i < a.len() ==> #[trigger] spec_ascii_lower(a[i]) == spec_ascii_lower(b[i])
}

/// The first descriptor of `ds` whose name matches `name` up to ASCII case.
pub open spec fn spec_first_named(ds: Seq<SpecOrmDescriptor>, name: Seq<char>) -> Option<
    SpecOrmDescriptor,
>
    decreases ds.len(),
{
    if ds.len() == 0 {
        None
    } else if spec_eq_ignore_ascii_case(ds[0].name, name) {
        Some(ds[0])
    } else {
        spec_first_named(ds.drop_first(), name)
    }
}

fn ascii_lower(c: char) -> (r: char)
    ensures
        r == spec_ascii_lower(c),
{
    if 'A' <= c && c <= 'Z' {
        let b = (c as u8) + 32;
        b as char
    } else {
        c
    }
}

/// Whether two strings are equal up to ASCII case.
pub fn eq_ignore_ascii_case(a: &str, b: &str) -> (r: bool)
    ensures
        r == spec_eq_ignore_ascii_case(a@, b@),
{
    let x = chars_of(a);
    let y = chars_of(b);
    if x.len() != y.len() {
        return false;
    }
    let mut i: usize = 0;
    while i < x.len()
        invariant
            x@ == a@,
            y@ == b@,
            x@.len() == y@.len(),
            i <= x@.len(),
            forall|j: int| 0 <= j < i ==> #[trigger] spec_ascii_lower(x@[j]) == spec_ascii_lower(y@[j]),
        decreases x@.len() - i,
    {
        if ascii_lower(x[i]) != ascii_lower(y[i]) {
            return false;
        }
        i = i + 1;
    }
    true
}

fn lists_extension(exts: &Vec<&'static str>, ext: &str) -> (r: bool)
    ensures
        r == exts.deep_view().contains(ext@),
{
    let ghost es = exts.deep_view();
    let mut j: usize = 0;
    while j < exts.len()
        invariant
            j <= exts@.len(),
            es == exts.deep_view(),
            !es.take(j as int).contains(ext@),
        decreases exts@.len() - j,
    {
        assert(es.take(j + 1) =~= es.take(j as int).push(es[j as int]));
        if crate::text::str_eq(exts[j], ext) {
            assert(es[j as int] == ext@);
            return true;
        }
        j = j + 1;
    }
    assert(es.take(exts@.len() as int) =~= es);
    false
}

/// Detect the ORM from a file path's extension.
pub fn detect(path: &str) -> (r: Option<OrmDescriptor>)
    ensures
        r.deep_view() == spec_detect(path@),
{
    let ext = match path_extension(path) {
        Some(e) => e,
        None => {
            return None;
        },
    };
    let mut all = orms();
    let ghost ds = all.deep_view();
    assert(ds.skip(0) =~= ds);
    let mut i: usize = 0;
    while i < all.len()
        invariant
            i <= all@.len(),
            ds == all.deep_view(),
            spec_detect(path@) == spec_first_with_extension(ds.skip(i as int), ext@),
        decreases all@.len() - i,
    {
        assert(ds.skip(i as int).drop_first() =~= ds.skip(i + 1));
        assert(ds.skip(i as int)[0] == ds[i as int]);
        if lists_extension(&all[i].extensions, ext.as_str()) {
            let r = all.remove(i);
            return Some(r);
        }
        i = i + 1;
    }
    None
}

/// Find an ORM descriptor by its CLI name (ASCII case-insensitive).
pub fn find_by_name(name: &str) -> (r: Option<OrmDescriptor>)
    ensures
        r.deep_view() == spec_first_named(spec_orms(), name@),
{
    let mut all = orms();
    let ghost ds = all.deep_view();
    assert(ds.skip(0) =~= ds);
    let mut i: usize = 0;
    while i < all.len()
        invariant
            i <= all@.len(),
            ds == all.deep_view(),
            ds == spec_orms(),
            spec_first_named(spec_orms(), name@) == spec_first_named(ds.skip(i as int), name@),
        decreases all@.len() - i,
    {
        assert(ds.skip(i as int).drop_first() =~= ds.skip(i + 1));
        assert(ds.skip(i as int)[0] == ds[i as int]);
        if eq_ignore_ascii_case(all[i].name, name) {
            let r = all.remove(i);
            return Some(r);
        }
        i = i + 1;
    }
    None
}

/// List CLI names of all known ORMs.
pub fn names() -> (r: Vec<&'static str>)
    ensures
        r.deep_view() == spec_orms().map_values(|d: SpecOrmDescriptor| d.name),
{
    let all = orms();
    let ghost ds = all.deep_view();
    let mut out: Vec<&'static str> = Vec::new();
    let mut i: usize = 0;
    while i < all.len()
        invariant
            i <= all@.len(),
            ds == all.deep_view(),
            ds == spec_orms(),
            out@.len() == i,
            forall|j: int| 0 <= j < i ==> (#[trigger] out@[j])@ == ds[j].name,
        decreases all@.len() - i,
    {
        out.push(all[i].name);
        i = i + 1;
    }
    assert(out.deep_view() =~= spec_orms().map_values(|d: SpecOrmDescriptor| d.name));
    out
}

// ── Laws ───────────────────────────────────────────────────────────────────

proof fn lemma_first_named_some(ds: Seq<SpecOrmDescriptor>, name: Seq<char>, i: int)
    requires
        0 <= i < ds.len(),
        spec_eq_ignore_ascii_case(ds[i].name, name),
    ensures
        spec_first_named(ds, name) is Some,
    decreases ds.len(),
{
    if i > 0 && !spec_eq_ignore_ascii_case(ds[0].name, name) {
        assert(ds.drop_first()[i - 1] == ds[i]);
        lemma_first_named_some(ds.drop_first(), name, i - 1);
    }
}

proof fn lemma_first_named_same(ds: Seq<SpecOrmDescriptor>, n1: Seq<char>, n2: Seq<char>)
    requires
        spec_eq_ignore_ascii_case(n1, n2),
    ensures
        spec_first_named(ds, n1) == spec_first_named(ds, n2),
    decreases ds.len(),
{
    if ds.len() > 0 {
        let x = ds[0].name;
        if spec_eq_ignore_ascii_case(x, n1) {
            assert forall|i: int| 0 <= i < x.len() implies #[trigger] spec_ascii_lower(x[i])
                == spec_ascii_lower(n2[i]) by {
                assert(spec_ascii_lower(x[i]) == spec_ascii_lower(n1[i]));
                assert(spec_ascii_lower(n1[i]) == spec_ascii_lower(n2[i]));
            }
        }
        if spec_eq_ignore_ascii_case(x, n2) {
            assert forall|i: int| 0 <= i < x.len() implies #[trigger] spec_ascii_lower(x[i])
                == spec_ascii_lower(n1[i]) by {
                assert(spec_ascii_lower(x[i]) == spec_ascii_lower(n2[i]));
                assert(spec_ascii_lower(n1[i]) == spec_ascii_lower(n2[i]));
            }
        }
        lemma_first_named_same(ds.drop_first(), n1, n2);
    }
}

/// Looking an ORM up by name ignores ASCII case: two names that differ only
/// in the case of ASCII letters find the same ORM.
pub proof fn law_find_by_name_ignores_case(n1: Seq<char>, n2: Seq<char>)
    requires
        spec_eq_ignore_ascii_case(n1, n2),
    ensures
        spec_first_named(spec_orms(), n1) == spec_first_named(spec_orms(), n2),
{
    lemma_first_named_same(spec_orms(), n1, n2);
}

/// Every name that [`names`] lists finds its ORM by [`find_by_name`].
pub proof fn law_listed_names_are_found(i: int)
    requires
        0 <= i < spec_orms().len(),
    ensures
        spec_first_named(spec_orms(), spec_orms()[i].name) matches Some(d) && d.name
            == spec_orms()[i].name,
{
    let n = spec_orms()[i].name;
    assert(spec_eq_ignore_ascii_case(n, n));
    lemma_first_named_some(spec_orms(), n, i);
}

/// A path is detected as a Prisma schema exactly when its file name's
/// extension is `prisma`; no other path is detected.
pub proof fn law_detect_by_extension(p: Seq<char>)
    ensures
        spec_detect(p) == (if spec_path_extension(p) == Some("prisma"@) {
            Some(spec_orms()[0])
        } else {
            None
        }),
{
    match spec_path_extension(p) {
        Some(ext) => {
            let ds = spec_orms();
            assert(ds.drop_first() =~= Seq::<SpecOrmDescriptor>::empty());
            assert(spec_first_with_extension(ds.drop_first(), ext) is None);
            assert(ds[0].extensions.len() == 1);
            if ext == "prisma"@ {
                assert(ds[0].extensions[0] == ext);
            } else {
                assert(!ds[0].extensions.contains(ext));
            }
            assert(spec_detect(p) == spec_first_with_extension(ds, ext));
        },
        None => {},
    }
}

proof fn lemma_last_index_at(s: Seq<char>, c: char, k: int)
    requires
        0 <= k < s.len(),
        s[k] == c,
        forall|j: int| k < j < s.len() ==> s[j] != c,
    ensures
        last_index_of(s, c) == k,
    decreases s.len(),
{
    if k < s.len() - 1 {
        assert forall|j: int| k < j < s.drop_last().len() implies s.drop_last()[j] != c by {
            assert(s.drop_last()[j] == s[j]);
        }
        lemma_last_index_at(s.drop_last(), c, k);
    }
}

proof fn lemma_last_index_none(s: Seq<char>, c: char)
    requires
        forall|j: int| 0 <= j < s.len() ==> s[j] != c,
    ensures
        last_index_of(s, c) == -1,
    decreases s.len(),
{
    if s.len() > 0 {
        assert forall|j: int| 0 <= j < s.drop_last().len() implies s.drop_last()[j] != c by {
            assert(s.drop_last()[j] == s[j]);
        }
        lemma_last_index_none(s.drop_last(), c);
    }
}

/// The directories in front of a file name do not change its extension, so
/// they do not change which ORM is detected.
pub proof fn law_detect_ignores_directories(dir: Seq<char>, name: Seq<char>)
    requires
        name.len() > 0,
        !name.contains('/'),
        name != "."@,
        name != ".."@,
    ensures
        spec_path_extension(dir + "/"@ + name) == spec_name_extension(name),
        spec_path_extension(name) == spec_name_extension(name),
        spec_detect(dir + "/"@ + name) == spec_detect(name),
{
    reveal_strlit("/");
    let p = dir + "/"@ + name;
    assert forall|j: int| dir.len() < j < p.len() implies p[j] != '/' by {
        assert(p[j] == name[j - dir.len() - 1]);
    }
    lemma_last_index_at(p, '/', dir.len() as int);
    assert(p.subrange(dir.len() as int + 1, p.len() as int) =~= name);
    assert forall|j: int| 0 <= j < name.len() implies name[j] != '/' by {
        if name[j] == '/' {
            assert(name.contains('/'));
        }
    }
    lemma_last_index_none(name, '/');
    assert(name.subrange(0, name.len() as int) =~= name);
}


/// A file name's extension is what follows its last `.`: a name `stem.ext`,
/// whose stem is not empty and whose `ext` holds no `.`, has the extension
/// `ext`; a name without a `.`, or whose only `.` begins it, has none.
pub proof fn law_name_extension(stem: Seq<char>, ext: Seq<char>)
    ensures
        stem.len() > 0 && !ext.contains('.') ==> spec_name_extension(stem + "."@ + ext) == Some(
            ext,
        ),
        !stem.contains('.') ==> spec_name_extension(stem) is None,
        !ext.contains('.') ==> spec_name_extension("."@ + ext) is None,
{
    reveal_strlit(".");
    if stem.len() > 0 && !ext.contains('.') {
        let n = stem + "."@ + ext;
        assert forall|j: int| stem.len() < j < n.len() implies n[j] != '.' by {
            assert(n[j] == ext[j - stem.len() - 1]);
            if n[j] == '.' {
                assert(ext.contains('.'));
            }
        }
        lemma_last_index_at(n, '.', stem.len() as int);
        assert(n.subrange(stem.len() as int + 1, n.len() as int) =~= ext);
    }
    if !stem.contains('.') {
        assert forall|j: int| 0 <= j < stem.len() implies stem[j] != '.' by {
            if stem[j] == '.' {
                assert(stem.contains('.'));
            }
        }
        lemma_last_index_none(stem, '.');
    }
    if !ext.contains('.') {
        let n = "."@ + ext;
        assert forall|j: int| 0 < j < n.len() implies n[j] != '.' by {
            assert(n[j] == ext[j - 1]);
            if n[j] == '.' {
                assert(ext.contains('.'));
            }
        }
        lemma_last_index_at(n, '.', 0);
    }
}


/// Whether two characters are equal up to ASCII case: equal, or an ASCII
/// capital letter and its small letter (32 code points above it).
pub open spec fn spec_same_letter(x: char, y: char) -> bool {
    ||| x == y
    ||| 'A' <= x <= 'Z' && (y as u32) == (x as u32) + 32
    ||| 'A' <= y <= 'Z' && (x as u32) == (y as u32) + 32
}

/// Names are compared up to ASCII case: two names match exactly when they
/// have the same length and each pair of characters is equal or differs
/// only in the case of an ASCII letter.
pub proof fn law_ascii_case(a: Seq<char>, b: Seq<char>)
    ensures
        spec_eq_ignore_ascii_case(a, b) <==> a.len() == b.len() && forall|i: int|
            0 <= i < a.len() ==> spec_same_letter(#[trigger] a[i], b[i]),
{
    assert forall|x: char, y: char| #[trigger] spec_ascii_lower(x) == #[trigger] spec_ascii_lower(y)
        <==> spec_same_letter(x, y) by {
        if 'A' <= x <= 'Z' {
            assert((((x as u32) + 32) as char) as u32 == (x as u32) + 32);
        }
        if 'A' <= y <= 'Z' {
            assert((((y as u32) + 32) as char) as u32 == (y as u32) + 32);
        }
    }
    if a.len() == b.len() {
        if spec_eq_ignore_ascii_case(a, b) {
            assert forall|i: int| 0 <= i < a.len() implies spec_same_letter(#[trigger] a[i], b[i]) by {
                assert(spec_ascii_lower(a[i]) == spec_ascii_lower(b[i]));
            }
        }
        if forall|i: int| 0 <= i < a.len() ==> spec_same_letter(#[trigger] a[i], b[i]) {
            assert forall|i: int| 0 <= i < a.len() implies #[trigger] spec_ascii_lower(a[i])
                == spec_ascii_lower(b[i]) by {
                assert(spec_same_letter(a[i], b[i]));
            }
        }
    }
}


/// The tool knows one ORM, Prisma: named `prisma` (shown as `Prisma`),
/// recognised with certainty by the `prisma` extension, usable as a source
/// through its importer and not yet as a target. A name finds it exactly when
/// it spells `prisma` up to ASCII case.
pub proof fn law_known_orms(n: Seq<char>)
    ensures
        spec_orms().len() == 1,
        spec_orms()[0].name == "prisma"@,
        spec_orms()[0].display_name == "Prisma"@,
        spec_orms()[0].extensions == seq!["prisma"@],
        spec_orms()[0].certain,
        spec_orms()[0].make_importer == Some(ImporterKind::Prisma),
        !spec_orms()[0].can_export,
        spec_first_named(spec_orms(), n) is Some <==> spec_eq_ignore_ascii_case("prisma"@, n),
        spec_first_named(spec_orms(), n) matches Some(d) ==> d == spec_orms()[0],
{
    let ds = spec_orms();
    assert(ds.drop_first() =~= Seq::<SpecOrmDescriptor>::empty());
    assert(spec_first_named(ds.drop_first(), n) is None);
    assert(ds[0].name == "prisma"@);
}

} // verus!
