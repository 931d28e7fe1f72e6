//! File paths. The library hands them on as they are and never looks inside.

use vstd::prelude::*;

verus! {

/// `std::path::PathBuf`, taken as it is: nothing is said of what a path holds.
#[verifier::external_type_specification]
#[verifier::external_body]
pub struct ExPathBuf(std::path::PathBuf);

/// `clone` of a `PathBuf` gives a path equal to the one cloned.
pub assume_specification[ <std::path::PathBuf as Clone>::clone ](
    path: &std::path::PathBuf,
) -> (copy: std::path::PathBuf)
    ensures
        copy == *path,
;

} // verus!
