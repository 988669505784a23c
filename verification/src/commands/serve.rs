//! Serving a project: what is said of it.

use crate::error::ZahuyachError;
use vstd::prelude::*;
use vstd::string::StringExecFns;

verus! {

/// The error for a site that has not been built: its output directory is
/// not there.
pub fn missing_output_error(output_dir: &str) -> (e: ZahuyachError)
    ensures
        e.is_invalid_input(
            "Output directory '"@ + output_dir@
                + "' does not exist. Please run 'zahuyach build' first."@,
        ),
{
    let mut message = "Output directory '".to_owned();
    message.append(output_dir);
    message.append("' does not exist. Please run 'zahuyach build' first.");
    ZahuyachError::InvalidInput(message)
}

} // verus!
