//! Building a project: what is said of it.

use crate::error::ZahuyachError;
use vstd::prelude::*;
use vstd::string::StringExecFns;

verus! {

/// The error for a directory that is no project: it holds no
/// `config.toml`.
pub fn missing_config_error() -> (e: ZahuyachError)
    ensures
        e.is_invalid_input(
            "config.toml not found. Make sure you're in a Zahuyach project directory."@,
        ),
{
    ZahuyachError::invalid_input(
        "config.toml not found. Make sure you're in a Zahuyach project directory.",
    )
}

/// The error for a directory of documents that is not there.
pub fn missing_content_error(path: &str) -> (e: ZahuyachError)
    ensures
        e.is_invalid_input("Content directory '"@ + path@ + "' does not exist"@),
{
    let mut message = "Content directory '".to_owned();
    message.append(path);
    message.append("' does not exist");
    ZahuyachError::InvalidInput(message)
}

/// The error for a directory of templates that is not there.
pub fn missing_templates_error(path: &str) -> (e: ZahuyachError)
    ensures
        e.is_invalid_input("Templates directory '"@ + path@ + "' does not exist"@),
{
    let mut message = "Templates directory '".to_owned();
    message.append(path);
    message.append("' does not exist");
    ZahuyachError::InvalidInput(message)
}

/// The error for a template whose file name is no text.
pub fn template_name_error() -> (e: ZahuyachError)
    ensures
        e.is_invalid_input("Invalid template name"@),
{
    ZahuyachError::invalid_input("Invalid template name")
}

/// The error for a configuration that could not be decoded: its message
/// is `Failed to parse config: ` and the cause.
pub fn config_error(cause: &str) -> (e: ZahuyachError)
    ensures
        e.is_invalid_input("Failed to parse config: "@ + cause@),
{
    ZahuyachError::invalid_input_with("Failed to parse config: ", cause)
}

/// What is said when a site has been built.
pub fn success_message(output_dir: &str) -> (r: String)
    ensures
        r@ == "Successfully built site to '"@ + output_dir@ + "'"@,
{
    let mut message = "Successfully built site to '".to_owned();
    message.append(output_dir);
    message.append("'");
    message
}

} // verus!
