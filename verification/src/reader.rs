//! Fixed-width little-endian reads from the front of a byte slice.
//!
//! The reads themselves are done by `nom`. This module says what they return,
//! over plain byte sequences, and turns their failure into
//! [`ParseError::Truncated`].

use vstd::prelude::*;

use crate::error::{outcome, ParseError};

verus! {

/// The value of the first two bytes of `s`, least significant byte first.
pub open spec fn le_u16_value(s: Seq<u8>) -> u16
    recommends
        s.len() >= 2,
{
    (s[0] as int + 0x100 * s[1] as int) as u16
}

/// The value of the first four bytes of `s`, least significant byte first.
pub open spec fn le_u32_value(s: Seq<u8>) -> u32
    recommends
        s.len() >= 4,
{
    (s[0] as int + 0x100 * s[1] as int + 0x1_0000 * s[2] as int + 0x100_0000 * s[3] as int) as u32
}

/// The first four bytes of `s` read as a two's complement number, least
/// significant byte first.
pub open spec fn le_i32_value(s: Seq<u8>) -> i32
    recommends
        s.len() >= 4,
{
    let unsigned = le_u32_value(s) as int;
    if unsigned < 0x8000_0000 {
        unsigned as i32
    } else {
        (unsigned - 0x1_0000_0000) as i32
    }
}

/// The four bytes that encode `value`, least significant byte first.
pub open spec fn le_u32_bytes(value: u32) -> Seq<u8> {
    seq![
        (value % 0x100) as u8,
        (value / 0x100 % 0x100) as u8,
        (value / 0x1_0000 % 0x100) as u8,
        (value / 0x100_0000) as u8,
    ]
}

/// What a read of `width` bytes off the front of `s` returns when those
/// bytes, once present, decode to `value`.
pub open spec fn read_result<T>(s: Seq<u8>, width: nat, value: T) -> Result<
    (Seq<u8>, T),
    ParseError,
> {
    if s.len() < width {
        Err(ParseError::Truncated)
    } else {
        Ok((s.skip(width as int), value))
    }
}

/// Decoding what [`le_u32_bytes`] encoded gives the value back, whatever
/// follows the four bytes.
pub proof fn lemma_le_u32_round_trip(value: u32, tail: Seq<u8>)
    ensures
        le_u32_value(le_u32_bytes(value) + tail) == value,
        (le_u32_bytes(value) + tail).skip(4) == tail,
{
    let s = le_u32_bytes(value) + tail;
    assert(s[0] == le_u32_bytes(value)[0]);
    assert(s[1] == le_u32_bytes(value)[1]);
    assert(s[2] == le_u32_bytes(value)[2]);
    assert(s[3] == le_u32_bytes(value)[3]);
    assert(s.skip(4) =~= tail);
}

/// `nom::Err`, the error side of every `nom` parser. Trusted as a type
/// only: nothing is known of a value of it, and none is looked into.
#[verifier::external_type_specification]
#[verifier::external_body]
#[verifier::reject_recursive_types(E)]
pub struct ExNomErr<E>(nom::Err<E>);

/// `nom::error::VerboseError`, the error detail that the readers ask `nom`
/// for. Trusted as a type only, like `nom::Err`.
#[verifier::external_type_specification]
#[verifier::external_body]
#[verifier::reject_recursive_types(I)]
pub struct ExNomVerboseError<I>(nom::error::VerboseError<I>);

/// `nom::number::complete::le_u8` on a byte slice. Trusted: it fails exactly
/// when the input is empty, and otherwise returns the input without its first
/// byte, together with that byte.
#[verifier::external_body]
fn nom_le_u8<'a>(input: &'a [u8]) -> (r: Result<
    (&'a [u8], u8),
    nom::Err<nom::error::VerboseError<&'a [u8]>>,
>)
    ensures
        match r {
            Ok((rest, value)) => input@.len() >= 1 && rest@ == input@.skip(1) && value
                == input@[0],
            Err(_) => input@.len() < 1,
        },
{
    nom::number::complete::le_u8(input)
}

/// `nom::number::complete::le_u16` on a byte slice. Trusted: it fails exactly
/// when fewer than two bytes are left, and otherwise returns the input
/// without its first two bytes, together with their little-endian value.
#[verifier::external_body]
fn nom_le_u16<'a>(input: &'a [u8]) -> (r: Result<
    (&'a [u8], u16),
    nom::Err<nom::error::VerboseError<&'a [u8]>>,
>)
    ensures
        match r {
            Ok((rest, value)) => input@.len() >= 2 && rest@ == input@.skip(2) && value
                == le_u16_value(input@),
            Err(_) => input@.len() < 2,
        },
{
    nom::number::complete::le_u16(input)
}

/// `nom::number::complete::le_u32` on a byte slice. Trusted: it fails exactly
/// when fewer than four bytes are left, and otherwise returns the input
/// without its first four bytes, together with their little-endian value.
#[verifier::external_body]
fn nom_le_u32<'a>(input: &'a [u8]) -> (r: Result<
    (&'a [u8], u32),
    nom::Err<nom::error::VerboseError<&'a [u8]>>,
>)
    ensures
        match r {
            Ok((rest, value)) => input@.len() >= 4 && rest@ == input@.skip(4) && value
                == le_u32_value(input@),
            Err(_) => input@.len() < 4,
        },
{
    nom::number::complete::le_u32(input)
}

/// `nom::number::complete::le_i32` on a byte slice. Trusted: it fails exactly
/// when fewer than four bytes are left, and otherwise returns the input
/// without its first four bytes, together with their little-endian value
/// read as two's complement.
#[verifier::external_body]
fn nom_le_i32<'a>(input: &'a [u8]) -> (r: Result<
    (&'a [u8], i32),
    nom::Err<nom::error::VerboseError<&'a [u8]>>,
>)
    ensures
        match r {
            Ok((rest, value)) => input@.len() >= 4 && rest@ == input@.skip(4) && value
                == le_i32_value(input@),
            Err(_) => input@.len() < 4,
        },
{
    nom::number::complete::le_i32(input)
}

/// `nom::bytes::complete::take` on a byte slice. Trusted: it fails exactly
/// when fewer than `count` bytes are left, and otherwise splits the input
/// after `count` bytes, returning what follows first and the bytes taken
/// second.
#[verifier::external_body]
fn nom_take<'a>(input: &'a [u8], count: usize) -> (r: Result<
    (&'a [u8], &'a [u8]),
    nom::Err<nom::error::VerboseError<&'a [u8]>>,
>)
    ensures
        match r {
            Ok((rest, taken)) => input@.len() >= count && rest@ == input@.skip(count as int)
                && taken@ == input@.take(count as int),
            Err(_) => input@.len() < count,
        },
{
    nom::bytes::complete::take(count)(input)
}

/// Reads one byte.
pub fn le_u8<'a>(input: &'a [u8]) -> (r: Result<(&'a [u8], u8), ParseError>)
    ensures
        outcome(r) == read_result(input@, 1, input@[0]),
{
    match nom_le_u8(input) {
        Ok((rest, value)) => Ok((rest, value)),
        Err(_) => Err(ParseError::Truncated),
    }
}

/// Reads an unsigned 16-bit little-endian number.
pub fn le_u16<'a>(input: &'a [u8]) -> (r: Result<(&'a [u8], u16), ParseError>)
    ensures
        outcome(r) == read_result(input@, 2, le_u16_value(input@)),
{
    match nom_le_u16(input) {
        Ok((rest, value)) => Ok((rest, value)),
        Err(_) => Err(ParseError::Truncated),
    }
}

/// Reads an unsigned 32-bit little-endian number.
pub fn le_u32<'a>(input: &'a [u8]) -> (r: Result<(&'a [u8], u32), ParseError>)
    ensures
        outcome(r) == read_result(input@, 4, le_u32_value(input@)),
{
    match nom_le_u32(input) {
        Ok((rest, value)) => Ok((rest, value)),
        Err(_) => Err(ParseError::Truncated),
    }
}

/// Reads a signed 32-bit little-endian number.
pub fn le_i32<'a>(input: &'a [u8]) -> (r: Result<(&'a [u8], i32), ParseError>)
    ensures
        outcome(r) == read_result(input@, 4, le_i32_value(input@)),
{
    match nom_le_i32(input) {
        Ok((rest, value)) => Ok((rest, value)),
        Err(_) => Err(ParseError::Truncated),
    }
}

/// Splits `count` bytes off the front: what follows them comes first in the
/// result, the bytes themselves second.
pub fn take<'a>(input: &'a [u8], count: usize) -> (r: Result<(&'a [u8], &'a [u8]), ParseError>)
    ensures
        match r {
            Ok((rest, taken)) => input@.len() >= count && rest@ == input@.skip(count as int)
                && taken@ == input@.take(count as int),
            Err(e) => input@.len() < count && e == ParseError::Truncated,
        },
{
    match nom_take(input, count) {
        Ok((rest, taken)) => Ok((rest, taken)),
        Err(_) => Err(ParseError::Truncated),
    }
}

} // verus!
