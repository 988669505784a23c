//! Starting a new project: which names and which directories are accepted.

use crate::error::ZahuyachError;
use crate::text::to_chars;
use vstd::prelude::*;
use vstd::string::StringExecFns;

verus! {

/// Whether a project name may not hold the character.
pub open spec fn forbidden(c: char) -> bool {
    c == '/' || c == '\\' || c == ':' || c == '*' || c == '?' || c == '"' || c == '<' || c == '>'
        || c == '|'
}

/// Whether a name holds a character that it may not hold.
pub open spec fn has_forbidden(name: Seq<char>) -> bool {
    exists|i: int| 0 <= i < name.len() && forbidden(#[trigger] name[i])
}

/// What is wrong with a project name, if anything: it is empty, it holds
/// a character that a directory name cannot hold, or it begins with a full
/// stop or a hyphen. The first of these that applies is reported.
pub open spec fn name_fault(name: Seq<char>) -> Option<Seq<char>> {
    if name.len() == 0 {
        Some("Project name cannot be empty"@)
    } else if has_forbidden(name) {
        Some("Project name cannot contain invalid characters '/\\:*?\"<>|'"@)
    } else if name[0] == '.' || name[0] == '-' {
        Some("Project name cannot start with a dot '.' or hyphen '-'."@)
    } else {
        None
    }
}

fn is_forbidden(c: char) -> (r: bool)
    ensures
        r == forbidden(c),
{
    c == '/' || c == '\\' || c == ':' || c == '*' || c == '?' || c == '"' || c == '<' || c == '>'
        || c == '|'
}

/// Validates the project name to ensure it's suitable for a directory name.
pub fn validate_project_name(name: &str) -> (r: Result<(), ZahuyachError>)
    ensures
        match name_fault(name@) {
            Some(message) => r is Err && r->Err_0.is_invalid_input(message),
            None => r is Ok,
        },
{
    let chars = to_chars(name);
    if chars.len() == 0 {
        return Err(ZahuyachError::invalid_input("Project name cannot be empty"));
    }
    let mut i: usize = 0;
    while i < chars.len()
        invariant
            i <= chars@.len(),
            chars@ == name@,
            forall|k: int| 0 <= k < i ==> !forbidden(#[trigger] chars@[k]),
        decreases chars@.len() - i,
    {
        if is_forbidden(chars[i]) {
            assert(forbidden(name@[i as int]));
            return Err(
                ZahuyachError::invalid_input(
                    "Project name cannot contain invalid characters '/\\:*?\"<>|'",
                ),
            );
        }
        i += 1;
    }
    if chars[0] == '.' || chars[0] == '-' {
        return Err(
            ZahuyachError::invalid_input("Project name cannot start with a dot '.' or hyphen '-'."),
        );
    }
    Ok(())
}

/// What is wrong with the directory of a new project, if anything. A
/// directory that was named may not hold anything if it exists; the
/// current directory, taken where none was named, may not hold anything.
pub open spec fn target_fault(named: bool, exists: bool, is_empty: bool, path: Seq<char>) -> Option<
    Seq<char>,
> {
    if named {
        if exists && !is_empty {
            Some("Directory '"@ + path + "' already exists and is not empty"@)
        } else {
            None
        }
    } else if !is_empty {
        Some(
            "Current directory is not empty. Please run in an empty directory or specify a project name."@,
        )
    } else {
        None
    }
}

/// Checks the directory of a new project. `named` says whether a name was
/// given, `exists` whether the directory is there, `is_empty` whether it
/// holds nothing, `path` how it is shown.
pub fn check_target_directory(named: bool, exists: bool, is_empty: bool, path: &str) -> (r: Result<
    (),
    ZahuyachError,
>)
    ensures
        match target_fault(named, exists, is_empty, path@) {
            Some(message) => r is Err && r->Err_0.is_invalid_input(message),
            None => r is Ok,
        },
{
    if named {
        if exists && !is_empty {
            let mut message = "Directory '".to_owned();
            message.append(path);
            message.append("' already exists and is not empty");
            return Err(ZahuyachError::InvalidInput(message));
        }
        Ok(())
    } else if !is_empty {
        Err(
            ZahuyachError::invalid_input(
                "Current directory is not empty. Please run in an empty directory or specify a project name.",
            ),
        )
    } else {
        Ok(())
    }
}

/// The error for a path that gives no project name.
pub fn unnamed_project_error() -> (e: ZahuyachError)
    ensures
        e.is_invalid_input("Cannot determine project name from path"@),
{
    ZahuyachError::invalid_input("Cannot determine project name from path")
}

/// What is said when a project has been started.
pub fn success_message(name: &str, path: &str) -> (r: String)
    ensures
        r@ == "Successfully initialized new blog project: "@ + name@ + " in directory "@ + path@,
{
    let mut message = "Successfully initialized new blog project: ".to_owned();
    message.append(name);
    message.append(" in directory ");
    message.append(path);
    message
}

} // verus!
