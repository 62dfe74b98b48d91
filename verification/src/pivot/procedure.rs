//! Stored functions, procedures and triggers.
use vstd::prelude::*;
use super::types::ColumnType;

verus! {

/// Procedural language used to write a function or stored procedure body.
#[derive(Debug, Clone, PartialEq)]
pub enum FunctionLanguage {
    /// Standard SQL.
    Sql,
    /// PostgreSQL PL/pgSQL.
    PlPgSql,
    /// PostgreSQL PL/Python.
    PlPython,
    /// PostgreSQL PL/Perl.
    PlPerl,
    /// JavaScript (e.g. PL/V8 in PostgreSQL).
    JavaScript,
    Custom { name: String },
}

/// PostgreSQL function volatility category.
#[derive(Debug, Clone, Copy, PartialEq, Eq)]
pub enum Volatility {
    /// May return different results for the same inputs.
    Volatile,
    /// Returns the same results for the same inputs within a single transaction.
    Stable,
    /// Always returns the same results for the same inputs.
    Immutable,
}

/// Direction of a function parameter.
#[derive(Debug, Clone, Copy, PartialEq, Eq)]
pub enum ParamMode {
    /// Input parameter.
    In,
    /// Output parameter.
    Out,
    /// Both input and output.
    InOut,
    /// Variadic.
    Variadic,
}

/// A single parameter of a [`Function`] or [`StoredProcedure`].
#[derive(Debug, Clone, PartialEq)]
pub struct FunctionParam {
    pub name: Option<String>,
    pub mode: ParamMode,
    pub param_type: ColumnType,
    /// SQL expression used as the default when the caller omits this parameter.
    pub default: Option<String>,
}

/// A stored database function — returns a value or a result set.
#[derive(Debug, Clone, PartialEq)]
pub struct Function {
    pub name: String,
    pub db_schema: Option<String>,
    pub language: FunctionLanguage,
    pub parameters: Vec<FunctionParam>,
    /// Return type — `None` for functions declared `RETURNS VOID`.
    pub return_type: Option<ColumnType>,
    /// `true` when the function returns `SETOF`.
    pub returns_set: bool,
    /// Source body of the function.
    pub body: String,
    pub volatility: Option<Volatility>,
}

/// A stored database procedure — like a function but does not return a value.
#[derive(Debug, Clone, PartialEq)]
pub struct StoredProcedure {
    pub name: String,
    pub db_schema: Option<String>,
    pub language: FunctionLanguage,
    pub parameters: Vec<FunctionParam>,
    /// Source body of the procedure.
    pub body: String,
}

/// When the trigger fires relative to the triggering statement.
#[derive(Debug, Clone, Copy, PartialEq, Eq)]
pub enum TriggerTiming {
    Before,
    After,
    InsteadOf,
}

/// DML event that activates a trigger.
#[derive(Debug, Clone, Copy, PartialEq, Eq)]
pub enum TriggerEvent {
    Insert,
    Update,
    Delete,
    Truncate,
}

/// Whether the trigger fires once per affected row or once per statement.
#[derive(Debug, Clone, Copy, PartialEq, Eq)]
pub enum ForEach {
    Row,
    Statement,
}

/// A database trigger — a function automatically called in response to a DML event.
#[derive(Debug, Clone, PartialEq)]
pub struct Trigger {
    pub name: String,
    /// Table or view that owns this trigger.
    pub table: String,
    pub timing: TriggerTiming,
    pub events: Vec<TriggerEvent>,
    pub for_each: ForEach,
    /// Optional SQL boolean expression — the trigger only fires when this is true.
    pub condition: Option<String>,
    /// Name of the database function to call when the trigger fires.
    pub function: String,
}

} // verus!
