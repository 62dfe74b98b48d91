use crate::pivot::Schema;
use crate::text::concat;
use vstd::prelude::*;

verus! {

/// Contract that every ORM exporter must satisfy.
pub trait Exporter {
    /// Serialize a pivot [`Schema`] into the target ORM's schema format.
    ///
    /// Returns [`ExportError`] if the schema cannot be represented in the target format.
    fn export(&self, schema: &Schema) -> Result<String, ExportError>;
}

/// Error returned by any exporter when serializing a schema fails.
#[derive(Debug, Clone)]
pub enum ExportError {
    /// The pivot schema contains a construct that has no equivalent in the target ORM.
    Unsupported(String),
    /// Serialization failed for an internal reason.
    Render(String),
}

/// Mathematical model of an [`ExportError`].
pub enum SpecExportError {
    Unsupported(Seq<char>),
    Render(Seq<char>),
}

impl DeepView for ExportError {
    type V = SpecExportError;

    open spec fn deep_view(&self) -> SpecExportError {
        match self {
            ExportError::Unsupported(s) => SpecExportError::Unsupported(s@),
            ExportError::Render(s) => SpecExportError::Render(s@),
        }
    }
}

/// The human-readable rendering of an export error.
pub open spec fn spec_export_error_message(e: SpecExportError) -> Seq<char> {
    match e {
        SpecExportError::Unsupported(s) => "unsupported construct: "@ + s,
        SpecExportError::Render(s) => "render error: "@ + s,
    }
}

impl ExportError {
    /// Renders the error as `unsupported construct: …` or `render error: …`.
    pub fn message(&self) -> (r: String)
        ensures
            r@ == spec_export_error_message(self.deep_view()),
    {
        match self {
            ExportError::Unsupported(s) => concat("unsupported construct: ", s.as_str()),
            ExportError::Render(s) => concat("render error: ", s.as_str()),
        }
    }
}

} // verus!
