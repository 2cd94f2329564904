//! The library's error type.

use vstd::prelude::*;

verus! {

/// What can go wrong in the library's own logic. Failures of the network,
/// the file system, JSON decoding and the output writer are the program's,
/// not the library's.
#[derive(Debug, PartialEq, Eq)]
pub enum Error {
    /// The EasyEDA API answered with an error.
    Api(String),
    /// A shape string or CAD document could not be read.
    Parse(String),
    /// A component could not be converted.
    Convert(String),
    /// An output file exists and overwriting was not asked for.
    AlreadyExists(String),
    /// A command-line argument is not acceptable.
    InvalidArg(String),
}

/// The human-readable text of an error with the given variant and detail.
pub open spec fn error_text(e: Error) -> Seq<char> {
    match e {
        Error::Api(s) => "EasyEDA API: "@ + s@,
        Error::Parse(s) => "EasyEDA shape parse: "@ + s@,
        Error::Convert(s) => "conversion: "@ + s@,
        Error::AlreadyExists(s) => "output file already exists: "@ + s@ + " (use --overwrite)"@,
        Error::InvalidArg(s) => "invalid argument: "@ + s@,
    }
}

impl Error {
    /// The human-readable text of the error.
    pub fn message(&self) -> (r: String)
        ensures
            r@ == error_text(*self),
    {
        match self {
            Error::Api(s) => String::from_str("EasyEDA API: ").concat(s.as_str()),
            Error::Parse(s) => String::from_str("EasyEDA shape parse: ").concat(s.as_str()),
            Error::Convert(s) => String::from_str("conversion: ").concat(s.as_str()),
            Error::AlreadyExists(s) => String::from_str("output file already exists: ").concat(
                s.as_str(),
            ).concat(" (use --overwrite)"),
            Error::InvalidArg(s) => String::from_str("invalid argument: ").concat(s.as_str()),
        }
    }
}

} // verus!
