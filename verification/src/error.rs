//! The failures a parse can report.

use vstd::prelude::*;

verus! {

/// Describes parser failures.
#[derive(Debug)]
pub enum Error {
    /// Parse error caused by corrupt or malformed data.
    InvalidData(&'static str),
    /// Parse error caused by limited parser support rather than invalid data.
    Unsupported(&'static str),
    /// The data ended before an expected field or box.
    UnexpectedEOF,
    /// A buffer could not be allocated.
    OutOfMemory,
}

/// The opaque error of the bit reader.
#[verifier::external_type_specification]
#[verifier::external_body]
pub struct ExBitReaderError(bitreader::BitReaderError);

/// The opaque error of a failed reservation.
#[verifier::external_type_specification]
#[verifier::external_body]
pub struct ExTryReserveError(fallible_collections::TryReserveError);

impl Error {
    /// The reason that the error gives.
    pub open spec fn reason(self) -> &'static str {
        match self {
            Error::InvalidData(s) => s,
            Error::Unsupported(s) => s,
            Error::UnexpectedEOF => "EOF",
            Error::OutOfMemory => "OOM",
        }
    }

    /// The reason that the error gives, for display.
    pub fn message(&self) -> (s: &'static str)
        ensures
            s == self.reason(),
    {
        match self {
            Error::InvalidData(s) => s,
            Error::Unsupported(s) => s,
            Error::UnexpectedEOF => "EOF",
            Error::OutOfMemory => "OOM",
        }
    }

    /// The error reported when a bit-level read runs past the end of its buffer.
    pub open spec fn truncated_bits() -> Error {
        Error::InvalidData("truncated bits")
    }

    /// The error reported for a buffer whose length in bits does not fit 64 bits.
    pub open spec fn oversized_buffer() -> Error {
        Error::Unsupported("buffer too large for bit-level reading")
    }

    /// Maps a bit reader failure to the library's error.
    pub fn from_bit_reader(err: bitreader::BitReaderError) -> (e: Error)
        ensures
            e == Error::truncated_bits(),
    {
        Error::InvalidData("truncated bits")
    }

    /// Maps a failed reservation to the library's error.
    pub fn from_try_reserve(err: fallible_collections::TryReserveError) -> (e: Error)
        ensures
            e == Error::OutOfMemory,
    {
        Error::OutOfMemory
    }
}

} // verus!
