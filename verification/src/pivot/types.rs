//! Column types, database type hints and default values.
use vstd::prelude::*;

verus! {

/// Abstract scalar type — database-agnostic representation of a column's value kind.
///
/// Paired with an optional [`DbHint`] inside [`ColumnType`] to preserve
/// database-specific precision (e.g. `String` + `DbHint::VarChar { length: 255 }`).
#[derive(Debug, Clone, PartialEq)]
pub enum ScalarType {
    String,
    Int,
    SmallInt,
    BigInt,
    Float,
    Double,
    Decimal { precision: u8, scale: u8 },
    Boolean,
    Date,
    Time { precision: u8 },
    DateTime { precision: u8 },
    Timestamp { precision: u8, with_timezone: bool },
    Json,
    /// PostgreSQL JSONB — binary JSON with indexing support.
    JsonB,
    Uuid,
    Bytes,
    Xml,
    /// PostgreSQL INET — IPv4 or IPv6 host address.
    Inet,
    /// PostgreSQL CIDR — IPv4 or IPv6 network address.
    Cidr,
    MacAddr,
    /// PostgreSQL TSVECTOR — pre-processed full-text search document.
    TsVector,
    /// PostgreSQL TSQUERY — full-text search query.
    TsQuery,
    /// Reference to a named enum defined in the same schema.
    Enum { name: String },
    /// Raw database type with no known IR equivalent, preserved verbatim.
    Unsupported { raw_type: String },
}

/// Mathematical model of a [`ScalarType`]: strings become character sequences.
pub enum SpecScalarType {
    String,
    Int,
    SmallInt,
    BigInt,
    Float,
    Double,
    Decimal { precision: u8, scale: u8 },
    Boolean,
    Date,
    Time { precision: u8 },
    DateTime { precision: u8 },
    Timestamp { precision: u8, with_timezone: bool },
    Json,
    JsonB,
    Uuid,
    Bytes,
    Xml,
    Inet,
    Cidr,
    MacAddr,
    TsVector,
    TsQuery,
    Enum { name: Seq<char> },
    Unsupported { raw_type: Seq<char> },
}

impl DeepView for ScalarType {
    type V = SpecScalarType;

    open spec fn deep_view(&self) -> SpecScalarType {
        match self {
            ScalarType::String => SpecScalarType::String,
            ScalarType::Int => SpecScalarType::Int,
            ScalarType::SmallInt => SpecScalarType::SmallInt,
            ScalarType::BigInt => SpecScalarType::BigInt,
            ScalarType::Float => SpecScalarType::Float,
            ScalarType::Double => SpecScalarType::Double,
            ScalarType::Decimal { precision, scale } => SpecScalarType::Decimal {
                precision: *precision,
                scale: *scale,
            },
            ScalarType::Boolean => SpecScalarType::Boolean,
            ScalarType::Date => SpecScalarType::Date,
            ScalarType::Time { precision } => SpecScalarType::Time { precision: *precision },
            ScalarType::DateTime { precision } => SpecScalarType::DateTime { precision: *precision },
            ScalarType::Timestamp { precision, with_timezone } => SpecScalarType::Timestamp {
                precision: *precision,
                with_timezone: *with_timezone,
            },
            ScalarType::Json => SpecScalarType::Json,
            ScalarType::JsonB => SpecScalarType::JsonB,
            ScalarType::Uuid => SpecScalarType::Uuid,
            ScalarType::Bytes => SpecScalarType::Bytes,
            ScalarType::Xml => SpecScalarType::Xml,
            ScalarType::Inet => SpecScalarType::Inet,
            ScalarType::Cidr => SpecScalarType::Cidr,
            ScalarType::MacAddr => SpecScalarType::MacAddr,
            ScalarType::TsVector => SpecScalarType::TsVector,
            ScalarType::TsQuery => SpecScalarType::TsQuery,
            ScalarType::Enum { name } => SpecScalarType::Enum { name: name@ },
            ScalarType::Unsupported { raw_type } => SpecScalarType::Unsupported {
                raw_type: raw_type@,
            },
        }
    }
}

/// Database-specific type hint layered on top of [`ScalarType`].
///
/// Prisma represents `@db.VarChar(255)` as `ScalarType::String` +
/// `DbHint::VarChar { length: 255 }`, so the length constraint is not lost.
#[derive(Debug, Clone, PartialEq)]
pub enum DbHint {
    VarChar { length: u32 },
    Char { length: u32 },
    Text,
    TinyText,
    MediumText,
    LongText,
    /// Explicit SMALLINT / INT2 column type hint (e.g. `@db.SmallInt`).
    SmallInt,
    /// Explicit INT / INT4 column type hint (e.g. MySQL `@db.Int`).
    Int,
    /// Explicit BIGINT / INT8 column type hint (e.g. `@db.BigInt`).
    BigInt,
    TinyInt,
    MediumInt,
    Year,
    /// Single-precision FLOAT (4 bytes).
    Float,
    /// DOUBLE PRECISION / FLOAT8 (8 bytes).
    DoublePrecision,
    /// REAL — alias for single-precision float in PostgreSQL.
    Real,
    Numeric { precision: u8, scale: u8 },
    VarBinary { length: u32 },
    Binary { length: u32 },
    TinyBlob,
    Blob,
    MediumBlob,
    LongBlob,
    /// PostgreSQL BYTEA — variable-length binary string.
    ByteA,
    /// BIT(n) or VARBIT(n) — fixed or variable-length bit string.
    Bit { length: Option<u32> },
    /// DATE — calendar date without time component.
    Date,
    /// TIME(n) — time of day without date.
    Time { precision: u8 },
    /// MySQL DATETIME(n) — date and time without timezone.
    DateTime { precision: u8 },
    /// MySQL TIMESTAMP(n) or PostgreSQL TIMESTAMP(n) without timezone.
    Timestamp { precision: u8 },
    /// PostgreSQL TIMESTAMPTZ shorthand.
    Timestamptz,
    /// PostgreSQL TIMETZ shorthand.
    Timetz,
    Interval,
    /// PostgreSQL UUID column type.
    Uuid,
    /// PostgreSQL INET — IPv4 or IPv6 host address.
    Inet,
    /// PostgreSQL CIDR — network address.
    Cidr,
    /// PostgreSQL XML.
    Xml,
    /// PostgreSQL MONEY.
    Money,
    /// PostgreSQL OID.
    Oid,
    /// Arbitrary database type expression not covered by other variants.
    Custom { type_expr: String },
}

/// Mathematical model of a [`DbHint`].
pub enum SpecDbHint {
    VarChar { length: u32 },
    Char { length: u32 },
    Text,
    TinyText,
    MediumText,
    LongText,
    SmallInt,
    Int,
    BigInt,
    TinyInt,
    MediumInt,
    Year,
    Float,
    DoublePrecision,
    Real,
    Numeric { precision: u8, scale: u8 },
    VarBinary { length: u32 },
    Binary { length: u32 },
    TinyBlob,
    Blob,
    MediumBlob,
    LongBlob,
    ByteA,
    Bit { length: Option<u32> },
    Date,
    Time { precision: u8 },
    DateTime { precision: u8 },
    Timestamp { precision: u8 },
    Timestamptz,
    Timetz,
    Interval,
    Uuid,
    Inet,
    Cidr,
    Xml,
    Money,
    Oid,
    Custom { type_expr: Seq<char> },
}

impl DeepView for DbHint {
    type V = SpecDbHint;

    open spec fn deep_view(&self) -> SpecDbHint {
        match self {
            DbHint::VarChar { length } => SpecDbHint::VarChar { length: *length },
            DbHint::Char { length } => SpecDbHint::Char { length: *length },
            DbHint::Text => SpecDbHint::Text,
            DbHint::TinyText => SpecDbHint::TinyText,
            DbHint::MediumText => SpecDbHint::MediumText,
            DbHint::LongText => SpecDbHint::LongText,
            DbHint::SmallInt => SpecDbHint::SmallInt,
            DbHint::Int => SpecDbHint::Int,
            DbHint::BigInt => SpecDbHint::BigInt,
            DbHint::TinyInt => SpecDbHint::TinyInt,
            DbHint::MediumInt => SpecDbHint::MediumInt,
            DbHint::Year => SpecDbHint::Year,
            DbHint::Float => SpecDbHint::Float,
            DbHint::DoublePrecision => SpecDbHint::DoublePrecision,
            DbHint::Real => SpecDbHint::Real,
            DbHint::Numeric { precision, scale } => SpecDbHint::Numeric {
                precision: *precision,
                scale: *scale,
            },
            DbHint::VarBinary { length } => SpecDbHint::VarBinary { length: *length },
            DbHint::Binary { length } => SpecDbHint::Binary { length: *length },
            DbHint::TinyBlob => SpecDbHint::TinyBlob,
            DbHint::Blob => SpecDbHint::Blob,
            DbHint::MediumBlob => SpecDbHint::MediumBlob,
            DbHint::LongBlob => SpecDbHint::LongBlob,
            DbHint::ByteA => SpecDbHint::ByteA,
            DbHint::Bit { length } => SpecDbHint::Bit { length: *length },
            DbHint::Date => SpecDbHint::Date,
            DbHint::Time { precision } => SpecDbHint::Time { precision: *precision },
            DbHint::DateTime { precision } => SpecDbHint::DateTime { precision: *precision },
            DbHint::Timestamp { precision } => SpecDbHint::Timestamp { precision: *precision },
            DbHint::Timestamptz => SpecDbHint::Timestamptz,
            DbHint::Timetz => SpecDbHint::Timetz,
            DbHint::Interval => SpecDbHint::Interval,
            DbHint::Uuid => SpecDbHint::Uuid,
            DbHint::Inet => SpecDbHint::Inet,
            DbHint::Cidr => SpecDbHint::Cidr,
            DbHint::Xml => SpecDbHint::Xml,
            DbHint::Money => SpecDbHint::Money,
            DbHint::Oid => SpecDbHint::Oid,
            DbHint::Custom { type_expr } => SpecDbHint::Custom { type_expr: type_expr@ },
        }
    }
}

/// Full type descriptor for a column: abstract kind + optional DB-specific hint.
#[derive(Debug, Clone, PartialEq)]
pub struct ColumnType {
    pub scalar: ScalarType,
    pub db_hint: Option<DbHint>,
    /// Whether this is a PostgreSQL array of `scalar` (e.g. `INT[]`).
    pub array: bool,
}

/// Mathematical model of a [`ColumnType`].
pub struct SpecColumnType {
    pub scalar: SpecScalarType,
    pub db_hint: Option<SpecDbHint>,
    pub array: bool,
}

impl DeepView for ColumnType {
    type V = SpecColumnType;

    open spec fn deep_view(&self) -> SpecColumnType {
        SpecColumnType {
            scalar: self.scalar.deep_view(),
            db_hint: self.db_hint.deep_view(),
            array: self.array,
        }
    }
}

impl ColumnType {
    /// Shorthand for a plain scalar column with no DB hint and no array wrapper.
    pub fn simple(scalar: ScalarType) -> (r: Self)
        ensures
            r.scalar == scalar,
            r.db_hint is None,
            !r.array,
    {
        ColumnType { scalar, db_hint: None, array: false }
    }
}

/// Concrete literal value used in a [`DefaultValue::Literal`].
///
/// A floating-point literal is kept as the decimal text it was written with
/// (for example `"3.25"`), so that no precision is lost inside the library.
#[derive(Debug, Clone, PartialEq)]
pub enum LiteralValue {
    String(String),
    Int(i64),
    Float(String),
    Bool(bool),
}

/// Mathematical model of a [`LiteralValue`].
pub enum SpecLiteralValue {
    String(Seq<char>),
    Int(i64),
    Float(Seq<char>),
    Bool(bool),
}

impl DeepView for LiteralValue {
    type V = SpecLiteralValue;

    open spec fn deep_view(&self) -> SpecLiteralValue {
        match self {
            LiteralValue::String(s) => SpecLiteralValue::String(s@),
            LiteralValue::Int(n) => SpecLiteralValue::Int(*n),
            LiteralValue::Float(t) => SpecLiteralValue::Float(t@),
            LiteralValue::Bool(b) => SpecLiteralValue::Bool(*b),
        }
    }
}

/// Database function called to compute a column's default value.
#[derive(Debug, Clone, PartialEq)]
pub enum DefaultFn {
    Now,
    Uuid,
    Cuid,
    Cuid2,
    Ulid,
    /// Auto-incrementing integer sequence.
    AutoIncrement,
    /// Custom function call not covered by other variants.
    Custom { expr: String },
}

/// Mathematical model of a [`DefaultFn`].
pub enum SpecDefaultFn {
    Now,
    Uuid,
    Cuid,
    Cuid2,
    Ulid,
    AutoIncrement,
    Custom { expr: Seq<char> },
}

impl DeepView for DefaultFn {
    type V = SpecDefaultFn;

    open spec fn deep_view(&self) -> SpecDefaultFn {
        match self {
            DefaultFn::Now => SpecDefaultFn::Now,
            DefaultFn::Uuid => SpecDefaultFn::Uuid,
            DefaultFn::Cuid => SpecDefaultFn::Cuid,
            DefaultFn::Cuid2 => SpecDefaultFn::Cuid2,
            DefaultFn::Ulid => SpecDefaultFn::Ulid,
            DefaultFn::AutoIncrement => SpecDefaultFn::AutoIncrement,
            DefaultFn::Custom { expr } => SpecDefaultFn::Custom { expr: expr@ },
        }
    }
}

/// Default value assigned to a column when no explicit value is provided on insert.
#[derive(Debug, Clone, PartialEq)]
pub enum DefaultValue {
    Literal(LiteralValue),
    Function(DefaultFn),
    /// Arbitrary SQL expression — escape hatch for defaults the IR cannot model.
    Raw(String),
}

/// Mathematical model of a [`DefaultValue`].
pub enum SpecDefaultValue {
    Literal(SpecLiteralValue),
    Function(SpecDefaultFn),
    Raw(Seq<char>),
}

impl DeepView for DefaultValue {
    type V = SpecDefaultValue;

    open spec fn deep_view(&self) -> SpecDefaultValue {
        match self {
            DefaultValue::Literal(l) => SpecDefaultValue::Literal(l.deep_view()),
            DefaultValue::Function(f) => SpecDefaultValue::Function(f.deep_view()),
            DefaultValue::Raw(s) => SpecDefaultValue::Raw(s@),
        }
    }
}

} // verus!
