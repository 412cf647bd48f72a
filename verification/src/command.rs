//! The command line: one argument, the directory to index.

use vstd::prelude::*;
use vstd::string::StringExecFns;

use crate::report::{Failure, FailureKind, FailureView};

verus! {

/// What is reported when no directory is named.
pub open spec fn usage_text() -> Seq<char> {
    "Usage: filededupe <directory_path>"@
}

/// The directory named on the command line: the argument that follows the
/// program's name. Arguments after it are not looked at. Without it the run
/// fails with the usage text before anything is walked.
pub fn directory_argument(arguments: &Vec<String>) -> (directory: Result<String, Failure>)
    ensures
        match directory {
            Ok(path) => arguments@.len() >= 2 && path@ == arguments@[1]@,
            Err(failure) => arguments@.len() < 2 && failure@ == (FailureView {
                kind: FailureKind::Usage,
                detail: usage_text(),
            }),
        },
{
    if arguments.len() < 2 {
        Err(Failure::new(FailureKind::Usage, String::from_str("Usage: filededupe <directory_path>")))
    } else {
        Ok(arguments[1].clone())
    }
}

} // verus!
