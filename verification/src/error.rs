//! The failures that reading a file can report.

use vstd::prelude::*;

verus! {

/// Why a byte stream could not be read as the value that was asked for.
#[derive(Debug, Clone, Copy, PartialEq, Eq)]
pub enum Error {
    /// Fewer bytes are left than a fixed-width read needs.
    ShortRead,
    /// A string position lies outside the string table.
    StringNotFound { index: u64 },
    /// A discriminant or kind tag matches no variant of the named type.
    EnumOutOfBounds(&'static str),
    /// A flag set holds bits outside the flags that its type defines.
    InvalidFlagBits,
    /// A type or method reference is not in its textual form.
    MalformedReference,
    /// The format's identification header is not the expected one.
    WrongFileFormat,
}

impl Error {
    /// A one-line description of the failure.
    pub fn message(&self) -> (text: &'static str)
        ensures
            text@ == self.spec_message()@,
    {
        match self {
            Error::ShortRead => "unexpected end of data",
            Error::StringNotFound { .. } => "string position out of range",
            Error::EnumOutOfBounds(_) => "value matches no variant",
            Error::InvalidFlagBits => "undefined flag bits",
            Error::MalformedReference => "malformed reference",
            Error::WrongFileFormat => "wrong file format",
        }
    }

    /// The text that [`Error::message`] returns.
    pub open spec fn spec_message(&self) -> &'static str {
        match self {
            Error::ShortRead => "unexpected end of data",
            Error::StringNotFound { .. } => "string position out of range",
            Error::EnumOutOfBounds(_) => "value matches no variant",
            Error::InvalidFlagBits => "undefined flag bits",
            Error::MalformedReference => "malformed reference",
            Error::WrongFileFormat => "wrong file format",
        }
    }
}

} // verus!
