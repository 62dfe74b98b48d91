pub mod prisma;

use crate::pivot::Schema;
use crate::text::concat;
use vstd::prelude::*;

verus! {

/// Contract that every ORM importer must satisfy.
pub trait Importer {
    /// Parse an ORM schema string and return the pivot [`Schema`].
    ///
    /// Returns [`ImportError`] if the input cannot be parsed or is structurally invalid.
    fn import(&self, input: &str) -> Result<Schema, ImportError>;
}

/// Error returned by any importer when parsing or resolving a schema fails.
#[derive(Debug, Clone)]
pub enum ImportError {
    /// The source file could not be parsed — contains a human-readable description.
    Parse(String),
    /// The parsed structure is semantically invalid (e.g. unknown type reference).
    Schema(String),
}

/// Mathematical model of an [`ImportError`].
pub enum SpecImportError {
    Parse(Seq<char>),
    Schema(Seq<char>),
}

impl DeepView for ImportError {
    type V = SpecImportError;

    open spec fn deep_view(&self) -> SpecImportError {
        match self {
            ImportError::Parse(s) => SpecImportError::Parse(s@),
            ImportError::Schema(s) => SpecImportError::Schema(s@),
        }
    }
}

/// The human-readable rendering of an import error.
pub open spec fn spec_import_error_message(e: SpecImportError) -> Seq<char> {
    match e {
        SpecImportError::Parse(s) => "parse error: "@ + s,
        SpecImportError::Schema(s) => "schema error: "@ + s,
    }
}

impl ImportError {
    /// Renders the error as `parse error: …` or `schema error: …`.
    pub fn message(&self) -> (r: String)
        ensures
            r@ == spec_import_error_message(self.deep_view()),
    {
        match self {
            ImportError::Parse(s) => concat("parse error: ", s.as_str()),
            ImportError::Schema(s) => concat("schema error: ", s.as_str()),
        }
    }
}

} // verus!
