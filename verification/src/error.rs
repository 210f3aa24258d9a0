//! The ways in which decoding a header can fail.

use vstd::prelude::*;

verus! {

/// Why a parse call gave up. Every failure is final: nothing is retried and
/// no partial value is handed out.
#[derive(Debug, Clone, Copy, PartialEq, Eq)]
pub enum ParseError {
    /// Fewer bytes remain than the field or region being read requires.
    Truncated,
    /// The bytes are there but match no recognized pattern.
    MalformedInput,
    /// A field was readable but broke a rule; the payload names the field.
    InvalidField(&'static str),
    /// The DIB header's leading size field is none of the known codes; the
    /// payload is the value that was read.
    UnrecognizedHeaderType(u32),
}

/// What a parser returned, with the remaining input taken by its view.
pub open spec fn outcome<T>(r: Result<(&[u8], T), ParseError>) -> Result<(Seq<u8>, T), ParseError> {
    match r {
        Ok((rest, value)) => Ok((rest@, value)),
        Err(e) => Err(e),
    }
}

} // verus!
