//! The errors a parse can end with.

use vstd::prelude::*;

verus! {

/// `std::io::Error`, carried through as it is: nothing is claimed of what it
/// holds.
#[verifier::external_type_specification]
#[verifier::external_body]
pub struct ExIoError(std::io::Error);

/// `std::string::FromUtf8Error`, carried through as it is: nothing is claimed
/// of what it holds.
#[verifier::external_type_specification]
#[verifier::external_body]
pub struct ExFromUtf8Error(std::string::FromUtf8Error);

/// Why a parse or a frame extraction failed.
#[derive(Debug)]
pub enum AviError {
    /// The byte source itself failed.
    Io(std::io::Error),
    /// A four-byte tag is not valid UTF-8 text.
    String(std::string::FromUtf8Error),
    /// The buffer does not open with `RIFF`.
    NotRiff,
    /// The form type is not `AVI `, or a header list lacks its `avih` record.
    NotAvi,
    /// Iteration over frames is exhausted.
    NoMoreFrames,
    /// A position or a read lies beyond the buffer or the enclosing window.
    PointerOutOfRange,
}

/// The category of an [`AviError`], without what the error carries.
#[derive(Debug, Clone, Copy, PartialEq, Eq, Structural)]
pub enum ErrorKind {
    Io,
    String,
    NotRiff,
    NotAvi,
    NoMoreFrames,
    PointerOutOfRange,
}

impl View for AviError {
    type V = ErrorKind;

    open spec fn view(&self) -> ErrorKind {
        match self {
            AviError::Io(_) => ErrorKind::Io,
            AviError::String(_) => ErrorKind::String,
            AviError::NotRiff => ErrorKind::NotRiff,
            AviError::NotAvi => ErrorKind::NotAvi,
            AviError::NoMoreFrames => ErrorKind::NoMoreFrames,
            AviError::PointerOutOfRange => ErrorKind::PointerOutOfRange,
        }
    }
}

/// Whether `res` is a failure of the given category.
pub open spec fn fails<T>(res: Result<T, AviError>, k: ErrorKind) -> bool {
    res matches Err(e) && e@ == k
}

/// Whether a reading, as the format defines it, is the failure `k`.
pub open spec fn is_failure<T>(reading: Result<T, ErrorKind>, k: ErrorKind) -> bool {
    reading == Err::<T, ErrorKind>(k)
}

/// The failures a parse can end with: no other category ever comes out of
/// one.
pub open spec fn is_parse_failure(k: ErrorKind) -> bool {
    k == ErrorKind::NotRiff || k == ErrorKind::NotAvi || k == ErrorKind::PointerOutOfRange || k
        == ErrorKind::String
}

impl AviError {
    /// The category of this error.
    pub fn kind(&self) -> (k: ErrorKind)
        ensures
            k == self@,
    {
        match self {
            AviError::Io(_) => ErrorKind::Io,
            AviError::String(_) => ErrorKind::String,
            AviError::NotRiff => ErrorKind::NotRiff,
            AviError::NotAvi => ErrorKind::NotAvi,
            AviError::NoMoreFrames => ErrorKind::NoMoreFrames,
            AviError::PointerOutOfRange => ErrorKind::PointerOutOfRange,
        }
    }
}

} // verus!
