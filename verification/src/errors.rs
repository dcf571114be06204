//! The closed error taxonomies, one per component. Each variant names
//! the single condition that raises it; rendering to text is left to
//! the outermost caller.

use vstd::prelude::*;

verus! {

/// What the catalog can refuse.
#[derive(Debug, PartialEq, Eq, Structural, Clone, Copy)]
pub enum CatalogError {
    /// A live row already carries this content digest.
    DuplicateHash,
    /// A live row already points at this path.
    DuplicatePath,
    /// No live row carries the requested id.
    NotFound,
    /// The backing store refused the row; here: the id space is spent.
    ConstraintViolation,
}

/// What the ingestion pipeline can refuse.
#[derive(Debug, PartialEq, Eq, Structural, Clone, Copy)]
pub enum IngestError {
    /// The source file is absent.
    SourceNotFound,
    /// The source name has no extension, or one outside the accepted set.
    UnsupportedFormat,
    /// Reading the source while digesting it failed.
    HashFailure,
    /// The store root could not be created.
    StorageUnavailable,
    /// Copying the source into the store failed; the source is untouched.
    CopyFailed,
    /// The catalog refused the new row; the placed blob was removed again.
    ConstraintViolation,
}

/// What the rename transaction can refuse.
#[derive(Debug, PartialEq, Eq, Structural, Clone, Copy)]
pub enum RenameError {
    /// No live row carries the requested id.
    NotFound,
    /// The requested name is blank.
    InvalidFilename,
    /// Another live row already shows the computed final name.
    NameConflict,
    /// A live row already points at the computed new path.
    DuplicatePath,
}

/// What starting the server can refuse.
#[derive(Debug, PartialEq, Eq, Structural, Clone, Copy)]
pub enum LifecycleError {
    /// The configured port could not be bound.
    BindFailure,
}

} // verus!
