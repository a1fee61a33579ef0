//! The error taxonomy shared by every accessor.

use vstd::prelude::*;

verus! {

/// Why an accessor failed.
///
/// * `IoError` — an underlying file or stream operation failed.
/// * `OsError` — a kernel call returned a failure status; carries the
///   OS-reported code.
/// * `NotFound` — a source was read successfully but the expected field
///   or key was absent.
/// * `ParseError` — the field was present but not decodable to the
///   expected type.
/// * `InvalidInput` — a caller-supplied path or argument cannot be
///   encoded for the underlying call.
#[derive(Clone, Copy, Debug, PartialEq, Eq, Structural)]
pub enum Error {
    IoError,
    OsError(i32),
    NotFound,
    ParseError,
    InvalidInput,
}

impl Error {
    /// A short human-readable label for the error kind.
    pub fn kind_name(&self) -> (r: &'static str)
        ensures
            r@ == match self {
                Error::IoError => "io error"@,
                Error::OsError(_) => "os error"@,
                Error::NotFound => "not found"@,
                Error::ParseError => "parse error"@,
                Error::InvalidInput => "invalid input"@,
            },
    {
        match self {
            Error::IoError => "io error",
            Error::OsError(_) => "os error",
            Error::NotFound => "not found",
            Error::ParseError => "parse error",
            Error::InvalidInput => "invalid input",
        }
    }
}

} // verus!
