use vstd::prelude::*;

verus! {

/// The two classes of failure a parse can end in.
#[derive(Debug, Clone, Copy, PartialEq, Eq, Structural)]
pub enum ErrorKind {
    /// The input holds bytes that do not form what was expected.
    InvalidData,
    /// The input ended before a field was complete.
    UnexpectedEof,
}

/// Why a parse failed.
#[derive(Debug, Clone, Copy, PartialEq, Eq, Structural)]
pub enum RdbError {
    /// A read needed more bytes than the buffer has left.
    UnexpectedEof,
    /// The bytes of an auxiliary field name or value run past the end of
    /// the buffer.
    AuxFieldTruncated,
    /// The whole buffer is shorter than the nine-byte file header.
    HeaderTooShort,
    /// The five magic bytes are not valid UTF-8.
    InvalidMagic,
    /// The four version bytes are not valid UTF-8.
    InvalidVersion,
    /// The length byte of an auxiliary field name is above 127.
    NonAsciiAuxName,
    /// A string field is not valid UTF-8.
    InvalidUtf8,
    /// A special string encoding other than the four known ones.
    InvalidStringEncoding,
}

/// A parse result with its value taken by its view.
pub open spec fn result_view<T: View>(r: Result<T, RdbError>) -> Result<T::V, RdbError> {
    match r {
        Ok(v) => Ok(v@),
        Err(e) => Err(e),
    }
}

/// The class of an error.
pub open spec fn spec_error_kind(e: RdbError) -> ErrorKind {
    match e {
        RdbError::UnexpectedEof => ErrorKind::UnexpectedEof,
        RdbError::AuxFieldTruncated => ErrorKind::UnexpectedEof,
        _ => ErrorKind::InvalidData,
    }
}

impl RdbError {
    /// The class of this error: running out of input, or malformed input.
    pub fn kind(&self) -> (k: ErrorKind)
        ensures
            k == spec_error_kind(*self),
    {
        match self {
            RdbError::UnexpectedEof => ErrorKind::UnexpectedEof,
            RdbError::AuxFieldTruncated => ErrorKind::UnexpectedEof,
            _ => ErrorKind::InvalidData,
        }
    }
}

} // verus!
