//! The error type of the library.

use vstd::prelude::*;
use vstd::std_specs::convert::FromSpecImpl;
use vstd::string::StringExecFns;

verus! {

/// `std::io::Error`, carried through as it is.
#[verifier::external_type_specification]
#[verifier::external_body]
pub struct ExIoError(std::io::Error);

/// What can go wrong in a run.
#[derive(Debug)]
pub enum Error {
    /// A failure of the generation itself, with its description.
    Gen(String),
    /// A failure to read the input or to write the output.
    Io(std::io::Error),
}

/// `std::io::Error`'s `to_string`: the text that describes the error. What
/// it says depends on the error's origin, so nothing is stated of it.
#[verifier::external_body]
fn io_error_text(e: &std::io::Error) -> (text: String) {
    e.to_string()
}

impl Error {
    /// The prefix of the message of a generation error.
    pub open spec fn gen_prefix() -> Seq<char> {
        "Generic error: "@
    }

    /// The prefix of the message of an input or output error.
    pub open spec fn io_prefix() -> Seq<char> {
        "I/O error: "@
    }

    /// The message of the error: its kind, then its description.
    pub fn message(&self) -> (text: String)
        ensures
            match *self {
                Error::Gen(description) => text@ == Error::gen_prefix() + description@,
                Error::Io(_) => Error::io_prefix().is_prefix_of(text@),
            },
    {
        match self {
            Error::Gen(description) => {
                let mut text = String::from_str("Generic error: ");
                text.append(description.as_str());
                text
            },
            Error::Io(e) => {
                let mut text = String::from_str("I/O error: ");
                let detail = io_error_text(e);
                text.append(detail.as_str());
                text
            },
        }
    }
}

impl From<String> for Error {
    fn from(s: String) -> (e: Error) {
        Error::Gen(s)
    }
}

impl FromSpecImpl<String> for Error {
    open spec fn obeys_from_spec() -> bool {
        true
    }

    open spec fn from_spec(s: String) -> Error {
        Error::Gen(s)
    }
}

impl<'a> From<&'a str> for Error {
    fn from(s: &'a str) -> (e: Error)
        ensures
            e matches Error::Gen(description) && description@ == s@,
    {
        Error::Gen(String::from_str(s))
    }
}

// Ghost code cannot name the string that `from` makes of a `&str`, so the
// conversion states its result in its own `ensures`.
impl<'a> FromSpecImpl<&'a str> for Error {
    open spec fn obeys_from_spec() -> bool {
        false
    }

    open spec fn from_spec(s: &'a str) -> Error {
        arbitrary()
    }
}

impl From<std::io::Error> for Error {
    fn from(e: std::io::Error) -> (r: Error) {
        Error::Io(e)
    }
}

impl FromSpecImpl<std::io::Error> for Error {
    open spec fn obeys_from_spec() -> bool {
        true
    }

    open spec fn from_spec(e: std::io::Error) -> Error {
        Error::Io(e)
    }
}

} // verus!
