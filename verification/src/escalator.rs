//! The search for the privilege escalator.

use vstd::prelude::*;

verus! {

/// `which::which`: the path of the executable that `program` names, found
/// by a search of the directories of `PATH`, as text; or the message of the
/// error that the search ended with. The outcome depends on the environment
/// and the file system, so nothing is claimed of it.
#[verifier::external_body]
pub(crate) fn which_program(program: &str) -> (found: Result<String, String>) {
    match which::which(program) {
        Ok(path) => Ok(path.to_string_lossy().into_owned()),
        Err(e) => Err(e.to_string()),
    }
}

} // verus!
