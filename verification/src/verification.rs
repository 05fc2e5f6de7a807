//! One run from the sources to the diagnostics: the model of the
//! specification, the model of the infrastructure, and their
//! reconciliation.

use crate::cross_validation::{cross_validation, reconcile};
use crate::diagnostics::{Diagnostics, Finding};
use crate::documents::{open_api, validate_open_api, CheckedFile, DocumentCheck};
use crate::error::{Failure, ModelError};
use crate::open_api::Specified;
use crate::terraform::{infrastructure, validate_terraform, Function, TerraformFiles};
use vstd::prelude::*;

verus! {

/// What a run finds, given the two models: the warnings of the
/// specification, then those of the infrastructure, then everything that
/// reconciliation finds. A model that could not be built ends the run, that
/// of the specification first.
pub open spec fn verification(
    specification: Specified,
    infrastructure: Result<(Seq<Function>, Seq<Finding>), Failure>,
) -> Result<Seq<Finding>, Failure> {
    match specification {
        Err(e) => Err(e),
        Ok(declared) => match infrastructure {
            Err(e) => Err(e),
            Ok(wired) => Ok(declared.1 + wired.1 + reconcile(wired.0, declared.0)),
        },
    }
}

/// Verifies the OpenAPI documents against the Terraform files. The result
/// is valid if it holds no error.
pub fn verify(
    terraform: &TerraformFiles,
    files: &[CheckedFile],
    merged: &Option<DocumentCheck>,
    content: Option<String>,
    skip_cyclic: bool,
) -> (r: Result<Diagnostics, ModelError>)
    ensures
        match r {
            Ok(found) => verification(
                open_api(files@, *merged, content, skip_cyclic),
                infrastructure(*terraform),
            ) == Ok::<Seq<Finding>, Failure>(found@),
            Err(e) => verification(
                open_api(files@, *merged, content, skip_cyclic),
                infrastructure(*terraform),
            ) == Err::<Seq<Finding>, Failure>(e@),
        },
{
    let declared = validate_open_api(files, merged, content, skip_cyclic)?;
    let wired = validate_terraform(terraform)?;
    let mut found = declared.1;
    found.append(wired.1);
    found.append(cross_validation(wired.0, declared.0));
    Ok(found)
}

} // verus!
