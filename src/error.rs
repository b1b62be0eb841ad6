//! Why a type's annotations could not be turned into a document.

use vstd::prelude::*;

verus! {

/// Which annotation a grammar error was found in.
#[derive(Debug, Clone, Copy, PartialEq, Eq)]
pub enum AnnotationKind {
    Endpoint,
    Field,
}

#[derive(Debug, Clone, PartialEq, Eq)]
pub enum PayloadError {
    /// An annotation broke its grammar. `owner` names the type (for an
    /// endpoint annotation) or the field (for a field annotation); `at` is the
    /// index of the offending token.
    MalformedAttribute { owner: String, kind: AnnotationKind, at: usize },
    /// The type carries no endpoint annotation.
    MissingEndpoint { owner: String },
    /// The field at `index` has no name but carries a field annotation.
    MissingFieldName { index: usize },
    /// The value of `field` could not be written as JSON.
    SerializationFailure { field: String },
}

} // verus!
