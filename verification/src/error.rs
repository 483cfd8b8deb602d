//! The failures that vault construction can surface, together with their
//! spec-level model.

use vstd::prelude::*;

verus! {

/// Spec-level model of [`Error`]: each variant carries the character
/// sequence of its message, where it has one.
pub enum ErrorSpec {
    Todo,
    StdIo(Seq<char>),
    InvalidPath,
    MetaDataError(Seq<char>),
}

/// The failures that vault construction can surface.
#[derive(Debug)]
pub enum Error {
    /// Reserved for not-yet-implemented functionality; the parsing pipeline
    /// never produces it.
    Todo,
    /// An underlying I/O failure, rendered as text by the caller that
    /// performed the I/O.
    StdIo(String),
    /// The path to a vault has no derivable final component.
    InvalidPath,
    /// Metadata parsing of a note was not successful.
    MetaDataError(String),
}

/// The result type of vault construction and parsing.
pub type Result<T> = core::result::Result<T, Error>;

impl DeepView for Error {
    type V = ErrorSpec;

    open spec fn deep_view(&self) -> ErrorSpec {
        match self {
            Error::Todo => ErrorSpec::Todo,
            Error::StdIo(m) => ErrorSpec::StdIo(m@),
            Error::InvalidPath => ErrorSpec::InvalidPath,
            Error::MetaDataError(m) => ErrorSpec::MetaDataError(m@),
        }
    }
}

} // verus!
