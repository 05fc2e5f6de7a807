//! Why a model could not be built.

use crate::diagnostics::{Diagnostics, Finding};
use crate::route::PatternError;
use crate::util::HttpMethod;
use vstd::prelude::*;

verus! {

/// A declaration that is absent, or has another shape than the one that is
/// read.
#[derive(Debug, Clone, Copy, PartialEq, Eq, Structural, Hash)]
pub enum Fault {
    /// No block `locals`.
    MissingLocals,
    /// No attribute `lambdas` in `locals`.
    MissingLambdas,
    /// No attribute `lambdas_permissions` in `locals`.
    MissingPermissions,
    /// A lambda without a `handler`.
    MissingHandler,
    /// A permission without a `principal`.
    MissingPrincipal,
    /// A permission of the gateway without a `source_arn`.
    MissingSourceArn,
    /// Something else stands where an object is read.
    ExpectedObject,
    /// Something else stands where an array is read.
    ExpectedArray,
    /// An expression stands where a plain name is read as a key.
    ExpectedIdentifier,
    /// An operation without the gateway's integration extension.
    MissingIntegration,
    /// An integration extension without a `uri` that is a string.
    MissingUri,
    /// A path that refers to its item instead of holding it.
    ReferencedPath,
}

/// Why a model could not be built. Nothing is reconciled after one of these.
#[derive(Debug, Clone, PartialEq, Eq)]
pub enum ModelError {
    /// A file that must be there is not; its name.
    MissingFile(String),
    /// A text that is not in its language; what the parser said.
    Syntax(String),
    /// A fault in a declaration, and the key or path at which it stands
    /// (empty for a fault of the whole file).
    Structure(Fault, String),
    /// A permission for a principal that this crate does not know.
    UnsupportedPrincipal(String),
    /// A source of a permission that stands for no route.
    Pattern(PatternError),
    /// An operation with a method that is not supported, and its path.
    UnsupportedMethod(HttpMethod, String),
    /// An integration whose `uri` names no known kind of backend.
    UnknownBackend(String),
    /// Inconsistencies; all of those that the stage found.
    Invalid(Diagnostics),
}

/// Why a model could not be built, as a value of the specification.
pub enum Failure {
    MissingFile(Seq<char>),
    Syntax(Seq<char>),
    Structure(Fault, Seq<char>),
    UnsupportedPrincipal(Seq<char>),
    Pattern(PatternError),
    UnsupportedMethod(HttpMethod, Seq<char>),
    UnknownBackend(Seq<char>),
    Invalid(Seq<Finding>),
}

impl View for ModelError {
    type V = Failure;

    open spec fn view(&self) -> Failure {
        match self {
            ModelError::MissingFile(name) => Failure::MissingFile(name@),
            ModelError::Syntax(message) => Failure::Syntax(message@),
            ModelError::Structure(fault, at) => Failure::Structure(*fault, at@),
            ModelError::UnsupportedPrincipal(principal) => Failure::UnsupportedPrincipal(
                principal@,
            ),
            ModelError::Pattern(e) => Failure::Pattern(*e),
            ModelError::UnsupportedMethod(method, path) => Failure::UnsupportedMethod(
                *method,
                path@,
            ),
            ModelError::UnknownBackend(uri) => Failure::UnknownBackend(uri@),
            ModelError::Invalid(found) => Failure::Invalid(found@),
        }
    }
}

} // verus!
