//! Raw syntax tree of a Prisma schema, as read from the source text, and the
//! lookups that the resolver performs on it.
use vstd::prelude::*;
use crate::text::str_eq;

verus! {

/// An attribute: `@path(args)` on a field, or `@@path(args)` on a block.
#[derive(Debug)]
pub struct RawAttr {
    pub path: String,
    pub args: Vec<RawArg>,
}

/// An argument of an attribute or of a function call.
#[derive(Debug)]
pub enum RawArg {
    Named(String, RawValue),
    Positional(RawValue),
}

/// A value written in an attribute argument.
#[derive(Debug)]
pub enum RawValue {
    /// A string literal; holds the text between the quotes, escapes unprocessed.
    Str(String),
    Int(i64),
    /// A decimal literal with a fractional part, as written.
    Float(String),
    Ident(String),
    Array(Vec<RawValue>),
    /// A function call — named args (`sort: Desc`) are preserved.
    Call(String, Vec<RawArg>),
    /// An integer literal that does not fit in an `i64`, as written.
    BadInt(String),
}

/// Model of a [`RawValue`].
pub enum SpecRawValue {
    Str(Seq<char>),
    Int(i64),
    Float(Seq<char>),
    Ident(Seq<char>),
    Array(Seq<SpecRawValue>),
    Call(Seq<char>, Seq<SpecRawArg>),
    BadInt(Seq<char>),
}

/// Model of a [`RawArg`].
pub enum SpecRawArg {
    Named(Seq<char>, SpecRawValue),
    Positional(SpecRawValue),
}

/// Model of a [`RawAttr`].
pub struct SpecRawAttr {
    pub path: Seq<char>,
    pub args: Seq<SpecRawArg>,
}

pub open spec fn raw_value_v(v: RawValue) -> SpecRawValue
    decreases v,
{
    match v {
        RawValue::Str(s) => SpecRawValue::Str(s@),
        RawValue::Int(n) => SpecRawValue::Int(n),
        RawValue::Float(t) => SpecRawValue::Float(t@),
        RawValue::Ident(s) => SpecRawValue::Ident(s@),
        RawValue::Array(items) => SpecRawValue::Array(raw_values_v(items@)),
        RawValue::Call(name, args) => SpecRawValue::Call(name@, raw_args_v(args@)),
        RawValue::BadInt(t) => SpecRawValue::BadInt(t@),
    }
}

pub open spec fn raw_values_v(s: Seq<RawValue>) -> Seq<SpecRawValue>
    decreases s,
{
    if s.len() == 0 {
        Seq::empty()
    } else {
        raw_values_v(s.drop_last()).push(raw_value_v(s.last()))
    }
}

pub open spec fn raw_arg_v(a: RawArg) -> SpecRawArg
    decreases a,
{
    match a {
        RawArg::Named(k, v) => SpecRawArg::Named(k@, raw_value_v(v)),
        RawArg::Positional(v) => SpecRawArg::Positional(raw_value_v(v)),
    }
}

pub open spec fn raw_args_v(s: Seq<RawArg>) -> Seq<SpecRawArg>
    decreases s,
{
    if s.len() == 0 {
        Seq::empty()
    } else {
        raw_args_v(s.drop_last()).push(raw_arg_v(s.last()))
    }
}

impl DeepView for RawValue {
    type V = SpecRawValue;

    open spec fn deep_view(&self) -> SpecRawValue {
        raw_value_v(*self)
    }
}

impl DeepView for RawArg {
    type V = SpecRawArg;

    open spec fn deep_view(&self) -> SpecRawArg {
        raw_arg_v(*self)
    }
}

impl DeepView for RawAttr {
    type V = SpecRawAttr;

    open spec fn deep_view(&self) -> SpecRawAttr {
        SpecRawAttr { path: self.path@, args: raw_args_v(self.args@) }
    }
}

/// A field declaration of a model or view.
#[derive(Debug)]
pub struct RawField {
    pub name: String,
    /// Set when the field type is `Unsupported("...")`.
    pub unsupported_type: Option<String>,
    pub base_type: String,
    pub is_optional: bool,
    pub is_array: bool,
    pub attrs: Vec<RawAttr>,
}

/// Model of a [`RawField`].
pub struct SpecRawField {
    pub name: Seq<char>,
    pub unsupported_type: Option<Seq<char>>,
    pub base_type: Seq<char>,
    pub is_optional: bool,
    pub is_array: bool,
    pub attrs: Seq<SpecRawAttr>,
}

impl DeepView for RawField {
    type V = SpecRawField;

    open spec fn deep_view(&self) -> SpecRawField {
        SpecRawField {
            name: self.name@,
            unsupported_type: self.unsupported_type.deep_view(),
            base_type: self.base_type@,
            is_optional: self.is_optional,
            is_array: self.is_array,
            attrs: self.attrs.deep_view(),
        }
    }
}

/// A `model` or `view` block.
#[derive(Debug)]
pub struct RawModel {
    pub name: String,
    pub fields: Vec<RawField>,
    pub block_attrs: Vec<RawAttr>,
}

/// Model of a [`RawModel`].
pub struct SpecRawModel {
    pub name: Seq<char>,
    pub fields: Seq<SpecRawField>,
    pub block_attrs: Seq<SpecRawAttr>,
}

impl DeepView for RawModel {
    type V = SpecRawModel;

    open spec fn deep_view(&self) -> SpecRawModel {
        SpecRawModel {
            name: self.name@,
            fields: self.fields.deep_view(),
            block_attrs: self.block_attrs.deep_view(),
        }
    }
}

/// A Prisma `type` alias — a scalar type with optional default attributes.
#[derive(Debug)]
pub struct RawTypeAlias {
    pub name: String,
    pub base_type: String,
    pub attrs: Vec<RawAttr>,
}

/// Model of a [`RawTypeAlias`].
pub struct SpecRawTypeAlias {
    pub name: Seq<char>,
    pub base_type: Seq<char>,
    pub attrs: Seq<SpecRawAttr>,
}

impl DeepView for RawTypeAlias {
    type V = SpecRawTypeAlias;

    open spec fn deep_view(&self) -> SpecRawTypeAlias {
        SpecRawTypeAlias {
            name: self.name@,
            base_type: self.base_type@,
            attrs: self.attrs.deep_view(),
        }
    }
}

/// One entry of an `enum` block: a block attribute or a value with its attributes.
#[derive(Debug)]
pub enum EnumEntry {
    Attr(RawAttr),
    Value(String, Vec<RawAttr>),
}

/// Model of an [`EnumEntry`].
pub enum SpecEnumEntry {
    Attr(SpecRawAttr),
    Value(Seq<char>, Seq<SpecRawAttr>),
}

impl DeepView for EnumEntry {
    type V = SpecEnumEntry;

    open spec fn deep_view(&self) -> SpecEnumEntry {
        match self {
            EnumEntry::Attr(a) => SpecEnumEntry::Attr(a.deep_view()),
            EnumEntry::Value(n, attrs) => SpecEnumEntry::Value(n@, attrs.deep_view()),
        }
    }
}

/// An `enum` block.
#[derive(Debug)]
pub struct RawEnum {
    pub name: String,
    pub entries: Vec<EnumEntry>,
}

/// Model of a [`RawEnum`].
pub struct SpecRawEnum {
    pub name: Seq<char>,
    pub entries: Seq<SpecEnumEntry>,
}

impl DeepView for RawEnum {
    type V = SpecRawEnum;

    open spec fn deep_view(&self) -> SpecRawEnum {
        SpecRawEnum { name: self.name@, entries: self.entries.deep_view() }
    }
}

/// A `key = value` entry of a `datasource` or `generator` block.
#[derive(Debug)]
pub struct ConfigField {
    pub key: String,
    pub value: RawValue,
}

/// Model of a [`ConfigField`].
pub struct SpecConfigField {
    pub key: Seq<char>,
    pub value: SpecRawValue,
}

impl DeepView for ConfigField {
    type V = SpecConfigField;

    open spec fn deep_view(&self) -> SpecConfigField {
        SpecConfigField { key: self.key@, value: self.value.deep_view() }
    }
}

/// A top-level block of a Prisma schema.
#[derive(Debug)]
pub enum Block {
    Datasource(Vec<ConfigField>),
    Generator(Vec<ConfigField>),
    Model(RawModel),
    View(RawModel),
    Enum(RawEnum),
    TypeAlias(RawTypeAlias),
}

/// Model of a [`Block`].
pub enum SpecBlock {
    Datasource(Seq<SpecConfigField>),
    Generator(Seq<SpecConfigField>),
    Model(SpecRawModel),
    View(SpecRawModel),
    Enum(SpecRawEnum),
    TypeAlias(SpecRawTypeAlias),
}

impl DeepView for Block {
    type V = SpecBlock;

    open spec fn deep_view(&self) -> SpecBlock {
        match self {
            Block::Datasource(c) => SpecBlock::Datasource(c.deep_view()),
            Block::Generator(c) => SpecBlock::Generator(c.deep_view()),
            Block::Model(m) => SpecBlock::Model(m.deep_view()),
            Block::View(m) => SpecBlock::View(m.deep_view()),
            Block::Enum(e) => SpecBlock::Enum(e.deep_view()),
            Block::TypeAlias(t) => SpecBlock::TypeAlias(t.deep_view()),
        }
    }
}

// ── Lookups ────────────────────────────────────────────────────────────────

/// The value of the first named argument called `key`.
pub open spec fn spec_named(args: Seq<SpecRawArg>, key: Seq<char>) -> Option<SpecRawValue>
    decreases args.len(),
{
    if args.len() == 0 {
        None
    } else {
        match args[0] {
            SpecRawArg::Named(k, v) => if k == key {
                Some(v)
            } else {
                spec_named(args.drop_first(), key)
            },
            SpecRawArg::Positional(_) => spec_named(args.drop_first(), key),
        }
    }
}

/// The value of the first positional argument.
pub open spec fn spec_first_positional(args: Seq<SpecRawArg>) -> Option<SpecRawValue>
    decreases args.len(),
{
    if args.len() == 0 {
        None
    } else {
        match args[0] {
            SpecRawArg::Positional(v) => Some(v),
            SpecRawArg::Named(_, _) => spec_first_positional(args.drop_first()),
        }
    }
}

pub open spec fn spec_as_str(v: SpecRawValue) -> Option<Seq<char>> {
    match v {
        SpecRawValue::Str(s) => Some(s),
        _ => None,
    }
}

pub open spec fn spec_as_int(v: SpecRawValue) -> Option<i64> {
    match v {
        SpecRawValue::Int(n) => Some(n),
        _ => None,
    }
}

pub open spec fn spec_as_ident(v: SpecRawValue) -> Option<Seq<char>> {
    match v {
        SpecRawValue::Ident(s) => Some(s),
        _ => None,
    }
}

/// The identifiers and strings among the items of an array, in order.
pub open spec fn spec_string_items(items: Seq<SpecRawValue>) -> Seq<Seq<char>>
    decreases items.len(),
{
    if items.len() == 0 {
        Seq::empty()
    } else {
        let rest = spec_string_items(items.drop_last());
        match items.last() {
            SpecRawValue::Ident(s) => rest.push(s),
            SpecRawValue::Str(s) => rest.push(s),
            _ => rest,
        }
    }
}

/// `as_string_array`: the identifiers and strings of an array; empty for any other value.
pub open spec fn spec_as_string_array(v: SpecRawValue) -> Seq<Seq<char>> {
    match v {
        SpecRawValue::Array(items) => spec_string_items(items),
        _ => Seq::empty(),
    }
}

/// The first attribute with the given path.
pub open spec fn spec_find_attr(attrs: Seq<SpecRawAttr>, path: Seq<char>) -> Option<SpecRawAttr>
    decreases attrs.len(),
{
    if attrs.len() == 0 {
        None
    } else if attrs[0].path == path {
        Some(attrs[0])
    } else {
        spec_find_attr(attrs.drop_first(), path)
    }
}

/// The first string argument of `attr` given positionally, as `@map("x")` or `@@schema("x")` hold it.
pub open spec fn spec_first_positional_str(args: Seq<SpecRawArg>) -> Option<Seq<char>> {
    match spec_first_positional(args) {
        Some(v) => spec_as_str(v),
        None => None,
    }
}

/// The string value of the named argument `key`, if that value is a string.
pub open spec fn spec_named_str(args: Seq<SpecRawArg>, key: Seq<char>) -> Option<Seq<char>> {
    match spec_named(args, key) {
        Some(v) => spec_as_str(v),
        None => None,
    }
}

pub proof fn lemma_raw_args_len(s: Seq<RawArg>)
    ensures
        raw_args_v(s).len() == s.len(),
    decreases s.len(),
{
    if s.len() > 0 {
        lemma_raw_args_len(s.drop_last());
    }
}

pub proof fn lemma_raw_args_index(s: Seq<RawArg>, i: int)
    requires
        0 <= i < s.len(),
    ensures
        raw_args_v(s).len() == s.len(),
        raw_args_v(s)[i] == raw_arg_v(s[i]),
    decreases s.len(),
{
    lemma_raw_args_len(s);
    if i < s.len() - 1 {
        lemma_raw_args_index(s.drop_last(), i);
    }
}

pub proof fn lemma_raw_args_push(s: Seq<RawArg>, a: RawArg)
    ensures
        raw_args_v(s.push(a)) == raw_args_v(s).push(raw_arg_v(a)),
{
    assert(s.push(a).drop_last() =~= s);
}

pub proof fn lemma_raw_values_len(s: Seq<RawValue>)
    ensures
        raw_values_v(s).len() == s.len(),
    decreases s.len(),
{
    if s.len() > 0 {
        lemma_raw_values_len(s.drop_last());
    }
}

pub proof fn lemma_raw_values_index(s: Seq<RawValue>, i: int)
    requires
        0 <= i < s.len(),
    ensures
        raw_values_v(s).len() == s.len(),
        raw_values_v(s)[i] == raw_value_v(s[i]),
    decreases s.len(),
{
    lemma_raw_values_len(s);
    if i < s.len() - 1 {
        lemma_raw_values_index(s.drop_last(), i);
    }
}

pub proof fn lemma_raw_values_push(s: Seq<RawValue>, v: RawValue)
    ensures
        raw_values_v(s.push(v)) == raw_values_v(s).push(raw_value_v(v)),
{
    assert(s.push(v).drop_last() =~= s);
}

impl RawAttr {
    /// The value of the first named argument called `key`.
    pub fn named(&self, key: &str) -> (r: Option<&RawValue>)
        ensures
            r.deep_view() == spec_named(self.deep_view().args, key@),
    {
        let ghost all = raw_args_v(self.args@);
        proof {
            lemma_raw_args_len(self.args@);
            assert(all.skip(0) =~= all);
        }
        let mut i: usize = 0;
        while i < self.args.len()
            invariant
                i <= self.args@.len(),
                all == raw_args_v(self.args@),
                all.len() == self.args@.len(),
                spec_named(all, key@) == spec_named(all.skip(i as int), key@),
            decreases self.args@.len() - i,
        {
            proof {
                lemma_raw_args_index(self.args@, i as int);
                assert(all.skip(i as int).drop_first() =~= all.skip(i + 1));
            }
            match &self.args[i] {
                RawArg::Named(k, v) => {
                    if str_eq(k.as_str(), key) {
                        return Some(v);
                    }
                },
                RawArg::Positional(_) => {},
            }
            i = i + 1;
        }
        None
    }

    /// The value of the first positional argument.
    pub fn first_positional(&self) -> (r: Option<&RawValue>)
        ensures
            r.deep_view() == spec_first_positional(self.deep_view().args),
    {
        let ghost all = raw_args_v(self.args@);
        proof {
            lemma_raw_args_len(self.args@);
            assert(all.skip(0) =~= all);
        }
        let mut i: usize = 0;
        while i < self.args.len()
            invariant
                i <= self.args@.len(),
                all == raw_args_v(self.args@),
                all.len() == self.args@.len(),
                spec_first_positional(all) == spec_first_positional(all.skip(i as int)),
            decreases self.args@.len() - i,
        {
            proof {
                lemma_raw_args_index(self.args@, i as int);
                assert(all.skip(i as int).drop_first() =~= all.skip(i + 1));
            }
            match &self.args[i] {
                RawArg::Positional(v) => {
                    return Some(v);
                },
                RawArg::Named(_, _) => {},
            }
            i = i + 1;
        }
        None
    }

    /// The string given as the first positional argument, if it is a string.
    pub fn first_positional_str(&self) -> (r: Option<String>)
        ensures
            r.deep_view() == spec_first_positional_str(self.deep_view().args),
    {
        match self.first_positional() {
            Some(v) => v.as_str(),
            None => None,
        }
    }

    /// The string value of the named argument `key`, if that value is a string.
    pub fn named_str(&self, key: &str) -> (r: Option<String>)
        ensures
            r.deep_view() == spec_named_str(self.deep_view().args, key@),
    {
        match self.named(key) {
            Some(v) => v.as_str(),
            None => None,
        }
    }
}

impl RawValue {
    /// A copy of the string, if this value is a string literal.
    pub fn as_str(&self) -> (r: Option<String>)
        ensures
            r.deep_view() == spec_as_str(self.deep_view()),
    {
        match self {
            RawValue::Str(s) => Some(s.clone()),
            _ => None,
        }
    }

    pub fn as_int(&self) -> (r: Option<i64>)
        ensures
            r == spec_as_int(self.deep_view()),
    {
        match self {
            RawValue::Int(n) => Some(*n),
            _ => None,
        }
    }

    /// A copy of the identifier, if this value is an identifier.
    pub fn as_ident(&self) -> (r: Option<String>)
        ensures
            r.deep_view() == spec_as_ident(self.deep_view()),
    {
        match self {
            RawValue::Ident(s) => Some(s.clone()),
            _ => None,
        }
    }

    /// The identifiers and strings of an array, in order; empty for any other value.
    pub fn as_string_array(&self) -> (r: Vec<String>)
        ensures
            r.deep_view() == spec_as_string_array(self.deep_view()),
    {
        match self {
            RawValue::Array(items) => {
                let ghost all = raw_values_v(items@);
                proof {
                    lemma_raw_values_len(items@);
                }
                let mut out: Vec<String> = Vec::new();
                let mut i: usize = 0;
                while i < items.len()
                    invariant
                        i <= items@.len(),
                        all == raw_values_v(items@),
                        all.len() == items@.len(),
                        out.deep_view() == spec_string_items(all.take(i as int)),
                    decreases items@.len() - i,
                {
                    proof {
                        lemma_raw_values_index(items@, i as int);
                        assert(all.take(i + 1).drop_last() =~= all.take(i as int));
                    }
                    let ghost before = out@;
                    match &items[i] {
                        RawValue::Ident(s) => {
                            out.push(s.clone());
                            assert(out.deep_view() =~= spec_string_items(all.take(i + 1))) by {
                                assert(out@ == before.push(out@.last()));
                            }
                        },
                        RawValue::Str(s) => {
                            out.push(s.clone());
                            assert(out.deep_view() =~= spec_string_items(all.take(i + 1))) by {
                                assert(out@ == before.push(out@.last()));
                            }
                        },
                        _ => {},
                    }
                    i = i + 1;
                }
                assert(all.take(items@.len() as int) =~= all);
                out
            },
            _ => Vec::new(),
        }
    }
}

/// The first attribute with the given path.
pub fn find_attr<'a>(attrs: &'a Vec<RawAttr>, path: &str) -> (r: Option<&'a RawAttr>)
    ensures
        r.deep_view() == spec_find_attr(attrs.deep_view(), path@),
{
    let ghost all = attrs.deep_view();
    assert(all.skip(0) =~= all);
    let mut i: usize = 0;
    while i < attrs.len()
        invariant
            i <= attrs@.len(),
            all == attrs.deep_view(),
            spec_find_attr(all, path@) == spec_find_attr(all.skip(i as int), path@),
        decreases attrs@.len() - i,
    {
        assert(all.skip(i as int).drop_first() =~= all.skip(i + 1));
        if str_eq(attrs[i].path.as_str(), path) {
            return Some(&attrs[i]);
        }
        i = i + 1;
    }
    None
}

} // verus!
