//! The fixed 14-byte block that opens every bitmap file.

use vstd::prelude::*;

use crate::error::{outcome, ParseError};
use crate::reader::{le_u32, le_u32_value, le_u8, take};

verus! {

/// The two-character tag that a bitmap file starts with.
#[derive(Debug, Clone, Copy, PartialEq, Eq)]
pub enum Signature {
    /// "BM", the Windows bitmap.
    BM,
    /// One of the OS/2 tags "BA", "CI", "CP", "IC" and "PT": recognized, but
    /// nothing further is decoded for them.
    UnsupportedOS2,
}

impl Signature {
    /// The signature that the byte pair spells, if it spells one. The match
    /// is on exact ASCII codes, so case matters.
    pub open spec fn spec_recognize(first: u8, second: u8) -> Option<Signature> {
        let pair = (first as char, second as char);
        if pair == ('B', 'M') {
            Some(Signature::BM)
        } else if pair == ('B', 'A') || pair == ('C', 'I') || pair == ('C', 'P') || pair == (
            'I',
            'C',
        ) || pair == ('P', 'T') {
            Some(Signature::UnsupportedOS2)
        } else {
            None
        }
    }

    /// What `parse` returns on the bytes `s`.
    pub open spec fn spec_parse(s: Seq<u8>) -> Result<(Seq<u8>, Signature), ParseError> {
        if s.len() < 2 {
            Err(ParseError::Truncated)
        } else {
            match Self::spec_recognize(s[0], s[1]) {
                Some(signature) => Ok((s.skip(2), signature)),
                None => Err(ParseError::MalformedInput),
            }
        }
    }

    /// Classifies a byte pair.
    pub fn recognize(first: u8, second: u8) -> (r: Option<Signature>)
        ensures
            r == Self::spec_recognize(first, second),
    {
        match (first as char, second as char) {
            ('B', 'M') => Some(Signature::BM),
            ('B', 'A') | ('C', 'I') | ('C', 'P') | ('I', 'C') | ('P', 'T') => Some(
                Signature::UnsupportedOS2,
            ),
            _ => None,
        }
    }

    /// Reads two bytes and classifies them.
    pub fn parse<'a>(input: &'a [u8]) -> (r: Result<(&'a [u8], Signature), ParseError>)
        ensures
            outcome(r) == Self::spec_parse(input@),
    {
        let (rest, first) = le_u8(input)?;
        let (rest, second) = le_u8(rest)?;
        assert(rest@ =~= input@.skip(2));
        match Self::recognize(first, second) {
            Some(signature) => Ok((rest, signature)),
            None => Err(ParseError::MalformedInput),
        }
    }
}

/// The file header. The four reserved bytes between the file size and the
/// pixel offset are read past and not kept.
#[derive(Debug, Clone, Copy, PartialEq, Eq)]
pub struct FileHeader {
    pub signature: Signature,
    /// Size of the whole file as the header states it; not checked against
    /// the input.
    pub file_size: u32,
    /// Offset of the pixel array from the start of the file, as stated.
    pub file_offset_pixels: u32,
}

impl FileHeader {
    /// What `parse` returns on the bytes `s`: the length is checked before
    /// anything is looked at.
    pub open spec fn spec_parse(s: Seq<u8>) -> Result<(Seq<u8>, FileHeader), ParseError> {
        if s.len() < 14 {
            Err(ParseError::Truncated)
        } else {
            match Signature::spec_parse(s) {
                Ok((_, signature)) => Ok(
                    (
                        s.skip(14),
                        FileHeader {
                            signature,
                            file_size: le_u32_value(s.skip(2)),
                            file_offset_pixels: le_u32_value(s.skip(10)),
                        },
                    ),
                ),
                Err(e) => Err(e),
            }
        }
    }

    /// Decodes the 14 bytes of the file header.
    pub fn parse<'a>(input: &'a [u8]) -> (r: Result<(&'a [u8], FileHeader), ParseError>)
        ensures
            outcome(r) == Self::spec_parse(input@),
    {
        if input.len() < 14 {
            return Err(ParseError::Truncated);
        }
        let (rest, signature) = Signature::parse(input)?;
        let (rest, file_size) = le_u32(rest)?;
        assert(rest@ =~= input@.skip(6));
        let (rest, _) = take(rest, 4)?;
        assert(rest@ =~= input@.skip(10));
        let (rest, file_offset_pixels) = le_u32(rest)?;
        assert(rest@ =~= input@.skip(14));
        Ok((rest, FileHeader { signature, file_size, file_offset_pixels }))
    }
}

/// The six byte pairs that may open a file, in ASCII: "BM", "BA", "CI",
/// "CP", "IC" and "PT".
pub open spec fn signature_codes() -> Set<(u8, u8)> {
    set![
        (0x42u8, 0x4Du8),
        (0x42u8, 0x41u8),
        (0x43u8, 0x49u8),
        (0x43u8, 0x50u8),
        (0x49u8, 0x43u8),
        (0x50u8, 0x54u8),
    ]
}

/// Of all pairs of bytes, the signature parser accepts the six codes and no
/// other: "BM" as the Windows signature, the other five as OS/2 variants.
/// Every other pair is answered with `MalformedInput`.
pub proof fn lemma_signature_accepts_exactly_the_codes(s: Seq<u8>)
    requires
        s.len() >= 2,
    ensures
        match Signature::spec_parse(s) {
            Ok((rest, signature)) => {
                &&& signature_codes().contains((s[0], s[1]))
                &&& rest == s.skip(2)
                &&& signature == Signature::BM <==> (s[0], s[1]) == (0x42u8, 0x4Du8)
            },
            Err(e) => !signature_codes().contains((s[0], s[1])) && e == ParseError::MalformedInput,
        },
{
}

/// On an input of at least 14 bytes that opens with one of the six codes,
/// the file header is decoded and takes exactly the first 14 bytes: what is
/// handed back is the input from byte 14 on, byte for byte.
pub proof fn lemma_file_header_consumes_fourteen_bytes(s: Seq<u8>)
    requires
        s.len() >= 14,
        signature_codes().contains((s[0], s[1])),
    ensures
        FileHeader::spec_parse(s) matches Ok((rest, _)) && rest.len() == s.len() - 14 && forall|
            i: int,
        |
            0 <= i < rest.len() ==> rest[i] == s[i + 14],
{
    lemma_signature_accepts_exactly_the_codes(s);
}

/// An input of fewer than 14 bytes has no file header, whatever it holds.
pub proof fn lemma_short_file_header_is_truncated(s: Seq<u8>)
    requires
        s.len() < 14,
    ensures
        FileHeader::spec_parse(s) == Err::<(Seq<u8>, FileHeader), ParseError>(
            ParseError::Truncated,
        ),
{
}

} // verus!
