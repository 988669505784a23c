//! The error type of the library.

use vstd::prelude::*;
use vstd::string::StringExecFns;

verus! {

/// `std::io::Error`, carried as it is.
#[verifier::external_type_specification]
#[verifier::external_body]
pub struct ExIoError(std::io::Error);

/// What can go wrong in a build.
#[derive(Debug)]
pub enum ZahuyachError {
    /// A file system operation failed.
    Io(std::io::Error),
    /// Something the pipeline was given does not have the shape it needs.
    InvalidInput(String),
}

/// `std::io::Error`'s `Display` text. It comes from the operating system, so
/// nothing is claimed of it.
#[verifier::external_body]
fn io_error_text(err: &std::io::Error) -> (text: String) {
    err.to_string()
}

impl ZahuyachError {
    /// Whether this is an `InvalidInput` that carries exactly `message`.
    pub open spec fn is_invalid_input(&self, message: Seq<char>) -> bool {
        self matches ZahuyachError::InvalidInput(m) && m@ == message
    }

    /// An `InvalidInput` with the given message.
    pub fn invalid_input(message: &str) -> (e: ZahuyachError)
        ensures
            e.is_invalid_input(message@),
    {
        ZahuyachError::InvalidInput(message.to_owned())
    }

    /// An `InvalidInput` whose message is `prefix` followed by `detail`.
    pub fn invalid_input_with(prefix: &str, detail: &str) -> (e: ZahuyachError)
        ensures
            e.is_invalid_input(prefix@ + detail@),
    {
        let mut message = prefix.to_owned();
        message.append(detail);
        ZahuyachError::InvalidInput(message)
    }

    /// The text shown to the user: `IO error: ` and the cause, or
    /// `Error: Invalid input: ` and the message.
    pub fn message(&self) -> (text: String)
        ensures
            match self {
                ZahuyachError::Io(_) => exists|cause: Seq<char>| text@ == "IO error: "@ + cause,
                ZahuyachError::InvalidInput(m) => text@ == "Error: Invalid input: "@ + m@,
            },
    {
        match self {
            ZahuyachError::Io(err) => {
                let cause = io_error_text(err);
                let mut text = "IO error: ".to_owned();
                text.append(cause.as_str());
                assert(text@ == "IO error: "@ + cause@);
                text
            },
            ZahuyachError::InvalidInput(m) => {
                let mut text = "Error: Invalid input: ".to_owned();
                text.append(m.as_str());
                text
            },
        }
    }
}

impl From<std::io::Error> for ZahuyachError {
    fn from(err: std::io::Error) -> (e: ZahuyachError) {
        ZahuyachError::Io(err)
    }
}

impl vstd::std_specs::convert::FromSpecImpl<std::io::Error> for ZahuyachError {
    open spec fn obeys_from_spec() -> bool {
        true
    }

    open spec fn from_spec(err: std::io::Error) -> ZahuyachError {
        ZahuyachError::Io(err)
    }
}

} // verus!
