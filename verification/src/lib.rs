//! Verified core of an ORM schema converter: the pivot IR, the Prisma
//! Schema Language importer and the registry of known ORMs.
pub mod json;
pub mod pivot;
pub mod text;
pub mod importer;
pub mod exporter;
pub mod registry;
