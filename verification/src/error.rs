//! The errors of loading a level or a key layout.

use vstd::prelude::*;

verus! {

/// `std::io::Error`, carried through as it came.
#[verifier::external_type_specification]
#[verifier::external_body]
pub struct ExIoError(std::io::Error);

/// Why a file could not be used.
#[derive(Debug)]
pub enum FileError {
    /// The file was read, but what it holds is not acceptable; the text says why.
    InvalidContentError(String),
    /// The file could not be read.
    IoError(std::io::Error),
}

/// Why no level could be loaded from the command line's arguments.
#[derive(Clone, Copy, Debug, PartialEq, Eq, Structural)]
pub enum ArgsError {
    /// No level was named.
    MissingLevelParameter,
    /// The named level could not be read.
    IoError,
}

impl FileError {
    /// The text that tells of this error: for unacceptable content the text
    /// that the error holds, for a failed read what the system said of it.
    pub fn to_string(&self) -> (text: String)
        ensures
            self matches FileError::InvalidContentError(what) ==> text@ == what@,
    {
        match self {
            FileError::InvalidContentError(what) => what.clone(),
            FileError::IoError(e) => io_error_text(e),
        }
    }
}

/// `std::io::Error`'s `to_string`: the error as text. What the text says is the
/// system's matter, and nothing is claimed of it.
#[verifier::external_body]
fn io_error_text(e: &std::io::Error) -> (text: String) {
    e.to_string()
}

impl From<std::io::Error> for FileError {
    /// A failed read as an error of the file.
    fn from(e: std::io::Error) -> (error: FileError) {
        FileError::IoError(e)
    }
}

impl vstd::std_specs::convert::FromSpecImpl<std::io::Error> for FileError {
    open spec fn obeys_from_spec() -> bool {
        true
    }

    open spec fn from_spec(e: std::io::Error) -> FileError {
        FileError::IoError(e)
    }
}

impl From<std::io::Error> for ArgsError {
    /// Any failed read of the level is the one error [`ArgsError::IoError`].
    fn from(_e: std::io::Error) -> (error: ArgsError) {
        ArgsError::IoError
    }
}

impl vstd::std_specs::convert::FromSpecImpl<std::io::Error> for ArgsError {
    open spec fn obeys_from_spec() -> bool {
        true
    }

    open spec fn from_spec(_e: std::io::Error) -> ArgsError {
        ArgsError::IoError
    }
}

impl ArgsError {
    /// The text that tells the operator of this error.
    pub open spec fn message(self) -> Seq<char> {
        match self {
            ArgsError::MissingLevelParameter => "The level paramter is missing"@,
            ArgsError::IoError =>
                "Given level file could not be read. Be sure that the file exists in the resource folder "@,
        }
    }

    /// The level that the first argument of the command line names. Without
    /// such an argument there is no level to load.
    pub fn level(argument: Option<String>) -> (result: Result<String, ArgsError>)
        ensures
            match argument {
                Some(name) => result == Ok::<String, ArgsError>(name),
                None => result == Err::<String, ArgsError>(ArgsError::MissingLevelParameter),
            },
    {
        match argument {
            Some(name) => Ok(name),
            None => Err(ArgsError::MissingLevelParameter),
        }
    }

    /// The text that tells the operator of this error.
    pub fn to_string(&self) -> (text: String)
        ensures
            text@ == self.message(),
    {
        match self {
            ArgsError::MissingLevelParameter => "The level paramter is missing".to_owned(),
            ArgsError::IoError =>
                "Given level file could not be read. Be sure that the file exists in the resource folder ".to_owned(),
        }
    }
}

} // verus!
