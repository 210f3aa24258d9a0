//! The DIB header: its type tag, the one variant that is decoded in full,
//! and the dispatch between them.

use vstd::arithmetic::div_mod::lemma_mod_multiples_basic;
use vstd::arithmetic::power2::{lemma2_to64, lemma_pow2_adds, lemma_pow2_pos, pow2};
use vstd::bits::{lemma_u32_pow2_no_overflow, lemma_u32_shl_is_mul};
use vstd::prelude::*;

use crate::error::{outcome, ParseError};
use crate::reader::{
    le_i32, le_i32_value, le_u16, le_u16_value, le_u32, le_u32_bytes, le_u32_value,
    lemma_le_u32_round_trip, read_result, take,
};

verus! {

/// The kinds of DIB header, told apart by the 32-bit size field that opens
/// each of them.
#[derive(Debug, Clone, Copy, PartialEq, Eq)]
pub enum DIBHeaderType {
    /// Size code 12.
    BitmapCoreHeader,
    /// Size code 64.
    BitmapCoreHeader2,
    /// Size code 40: the one kind whose body is decoded.
    BitmapInfoHeader,
    /// Size code 52.
    BitmapV2InfoHeader,
    /// Size code 56.
    BitMapV3InfoHeader,
    /// Size code 108.
    BitmapV4InfoHeader,
    /// Size code 124.
    BitmapV5InfoHeader,
}

impl DIBHeaderType {
    /// The size code that stands for this kind of header.
    pub open spec fn spec_code(self) -> u32 {
        match self {
            DIBHeaderType::BitmapCoreHeader => 12,
            DIBHeaderType::BitmapCoreHeader2 => 64,
            DIBHeaderType::BitmapInfoHeader => 40,
            DIBHeaderType::BitmapV2InfoHeader => 52,
            DIBHeaderType::BitMapV3InfoHeader => 56,
            DIBHeaderType::BitmapV4InfoHeader => 108,
            DIBHeaderType::BitmapV5InfoHeader => 124,
        }
    }

    /// The kind of header that `value` stands for, or `value` itself where
    /// it stands for none.
    pub open spec fn spec_try_from(value: u32) -> Result<DIBHeaderType, u32> {
        if value == 12 {
            Ok(DIBHeaderType::BitmapCoreHeader)
        } else if value == 64 {
            Ok(DIBHeaderType::BitmapCoreHeader2)
        } else if value == 40 {
            Ok(DIBHeaderType::BitmapInfoHeader)
        } else if value == 52 {
            Ok(DIBHeaderType::BitmapV2InfoHeader)
        } else if value == 56 {
            Ok(DIBHeaderType::BitMapV3InfoHeader)
        } else if value == 108 {
            Ok(DIBHeaderType::BitmapV4InfoHeader)
        } else if value == 124 {
            Ok(DIBHeaderType::BitmapV5InfoHeader)
        } else {
            Err(value)
        }
    }

    /// What `parse` returns on the bytes `s`.
    pub open spec fn spec_parse(s: Seq<u8>) -> Result<(Seq<u8>, DIBHeaderType), ParseError> {
        if s.len() < 4 {
            Err(ParseError::Truncated)
        } else {
            match Self::spec_try_from(le_u32_value(s)) {
                Ok(header_type) => Ok((s.skip(4), header_type)),
                Err(value) => Err(ParseError::UnrecognizedHeaderType(value)),
            }
        }
    }

    /// The size code of this kind of header.
    pub fn code(&self) -> (code: u32)
        ensures
            code == self.spec_code(),
    {
        match self {
            DIBHeaderType::BitmapCoreHeader => 12,
            DIBHeaderType::BitmapCoreHeader2 => 64,
            DIBHeaderType::BitmapInfoHeader => 40,
            DIBHeaderType::BitmapV2InfoHeader => 52,
            DIBHeaderType::BitMapV3InfoHeader => 56,
            DIBHeaderType::BitmapV4InfoHeader => 108,
            DIBHeaderType::BitmapV5InfoHeader => 124,
        }
    }

    /// Reads the four-byte size field and maps it to a kind of header.
    pub fn parse<'a>(input: &'a [u8]) -> (r: Result<(&'a [u8], DIBHeaderType), ParseError>)
        ensures
            outcome(r) == Self::spec_parse(input@),
    {
        let (rest, value) = le_u32(input)?;
        match DIBHeaderType::try_from(value) {
            Ok(header_type) => Ok((rest, header_type)),
            Err(value) => Err(ParseError::UnrecognizedHeaderType(value)),
        }
    }
}

impl TryFrom<u32> for DIBHeaderType {
    type Error = u32;

    fn try_from(value: u32) -> (r: Result<DIBHeaderType, u32>) {
        match value {
            12 => Ok(DIBHeaderType::BitmapCoreHeader),
            64 => Ok(DIBHeaderType::BitmapCoreHeader2),
            40 => Ok(DIBHeaderType::BitmapInfoHeader),
            52 => Ok(DIBHeaderType::BitmapV2InfoHeader),
            56 => Ok(DIBHeaderType::BitMapV3InfoHeader),
            108 => Ok(DIBHeaderType::BitmapV4InfoHeader),
            124 => Ok(DIBHeaderType::BitmapV5InfoHeader),
            _ => Err(value),
        }
    }
}

impl vstd::std_specs::convert::TryFromSpecImpl<u32> for DIBHeaderType {
    open spec fn obeys_try_from_spec() -> bool {
        true
    }

    open spec fn try_from_spec(value: u32) -> Result<DIBHeaderType, u32> {
        DIBHeaderType::spec_try_from(value)
    }
}

/// The body of the 40-byte header variant: the 36 bytes that follow its type
/// tag, decoded and validated.
#[derive(Debug, Clone, Copy, PartialEq, Eq)]
pub struct BitmapInfoHeader {
    /// Width in pixels; may be negative.
    pub image_width: i32,
    /// Height in pixels; may be negative.
    pub image_height: i32,
    pub bits_per_pixel: u16,
    /// Compression method, as stored: no code is refused here.
    pub compression: u32,
    /// Size of the pixel data as stored; zero only for uncompressed images.
    pub image_size: u32,
    /// Pixel per metre X
    pub horizontal_resolution: i32,
    /// Pixel per metre Y
    pub vertical_resolution: i32,
    /// Number of colors after resolving a stored zero from the bit depth.
    pub colors: u32,
    /// Number of important colors, as stored.
    pub important_colors: u32,
}

impl BitmapInfoHeader {
    /// The number of colors that a header declares: the stored count, or,
    /// where that is zero, two to the power of the bit depth, reduced to the
    /// 32 bits of the field.
    pub open spec fn spec_effective_colors(bits_per_pixel: u16, raw: u32) -> u32 {
        if raw != 0 {
            raw
        } else {
            (pow2(bits_per_pixel as nat) % 0x1_0000_0000) as u32
        }
    }

    /// Every header that `parse` hands out satisfies this: a stored image
    /// size of zero goes with compression method zero, and the color count is
    /// zero only where the bit depth is too large for the field.
    pub open spec fn wf(&self) -> bool {
        &&& self.image_size != 0 || self.compression == 0
        &&& self.colors != 0 || self.bits_per_pixel >= 32
    }

    /// What `parse` returns on the bytes `s`. Fields are read in order, and
    /// the first field that is cut short or breaks its rule decides the
    /// error.
    pub open spec fn spec_parse(s: Seq<u8>) -> Result<(Seq<u8>, BitmapInfoHeader), ParseError> {
        let bits_per_pixel = le_u16_value(s.skip(10));
        let compression = le_u32_value(s.skip(12));
        let image_size = le_u32_value(s.skip(16));
        if s.len() < 10 {
            Err(ParseError::Truncated)
        } else if le_u16_value(s.skip(8)) != 1 {
            Err(ParseError::InvalidField("Color Planes"))
        } else if s.len() < 20 {
            Err(ParseError::Truncated)
        } else if image_size == 0 && compression != 0 {
            Err(ParseError::InvalidField("Raw Image Size"))
        } else if s.len() < 36 {
            Err(ParseError::Truncated)
        } else {
            Ok(
                (
                    s.skip(36),
                    BitmapInfoHeader {
                        image_width: le_i32_value(s),
                        image_height: le_i32_value(s.skip(4)),
                        bits_per_pixel,
                        compression,
                        image_size,
                        horizontal_resolution: le_i32_value(s.skip(20)),
                        vertical_resolution: le_i32_value(s.skip(24)),
                        colors: Self::spec_effective_colors(
                            bits_per_pixel,
                            le_u32_value(s.skip(28)),
                        ),
                        important_colors: le_u32_value(s.skip(32)),
                    },
                ),
            )
        }
    }

    /// Resolves the stored color count against the bit depth.
    pub fn effective_colors(bits_per_pixel: u16, raw: u32) -> (colors: u32)
        ensures
            colors == Self::spec_effective_colors(bits_per_pixel, raw),
            colors != 0 || bits_per_pixel >= 32,
    {
        proof {
            lemma_effective_colors(bits_per_pixel, raw);
        }
        if raw != 0 {
            raw
        } else if bits_per_pixel < 32 {
            proof {
                lemma_u32_pow2_no_overflow(bits_per_pixel as nat);
                lemma_u32_shl_is_mul(1u32, bits_per_pixel as u32);
            }
            1u32 << (bits_per_pixel as u32)
        } else {
            0
        }
    }

    /// Decodes the 36 bytes that follow the type tag of a 40-byte header.
    pub fn parse<'a>(input: &'a [u8]) -> (r: Result<(&'a [u8], BitmapInfoHeader), ParseError>)
        ensures
            outcome(r) == Self::spec_parse(input@),
            r matches Ok((_, header)) ==> header.wf(),
    {
        let (rest, image_width) = le_i32(input)?;
        assert(rest@ =~= input@.skip(4));
        let (rest, image_height) = le_i32(rest)?;
        assert(rest@ =~= input@.skip(8));
        let (rest, color_planes) = le_u16(rest)?;
        assert(rest@ =~= input@.skip(10));
        if color_planes != 1 {
            return Err(ParseError::InvalidField("Color Planes"));
        }
        let (rest, bits_per_pixel) = le_u16(rest)?;
        assert(rest@ =~= input@.skip(12));
        let (rest, compression) = le_u32(rest)?;
        assert(rest@ =~= input@.skip(16));
        let (rest, image_size) = le_u32(rest)?;
        assert(rest@ =~= input@.skip(20));
        if image_size == 0 && compression != 0 {
            return Err(ParseError::InvalidField("Raw Image Size"));
        }
        let (rest, horizontal_resolution) = le_i32(rest)?;
        assert(rest@ =~= input@.skip(24));
        let (rest, vertical_resolution) = le_i32(rest)?;
        assert(rest@ =~= input@.skip(28));
        let (rest, raw_colors) = le_u32(rest)?;
        assert(rest@ =~= input@.skip(32));
        let colors = Self::effective_colors(bits_per_pixel, raw_colors);
        let (rest, important_colors) = le_u32(rest)?;
        assert(rest@ =~= input@.skip(36));
        Ok(
            (
                rest,
                BitmapInfoHeader {
                    image_width,
                    image_height,
                    bits_per_pixel,
                    compression,
                    image_size,
                    horizontal_resolution,
                    vertical_resolution,
                    colors,
                    important_colors,
                },
            ),
        )
    }
}

/// A DIB header: decoded in full where it is the 40-byte variant, and
/// otherwise known by its kind alone.
#[derive(Debug, Clone, Copy, PartialEq, Eq)]
pub enum DIBHeader {
    /// The 40-byte variant, with its decoded body.
    BitmapInfoHeader(BitmapInfoHeader),
    /// Any other kind: its body was passed over.
    Unsupported(DIBHeaderType),
}

impl DIBHeader {
    /// A decoded body is well formed; a header known by its kind alone has
    /// nothing to break.
    pub open spec fn wf(&self) -> bool {
        match self {
            DIBHeader::BitmapInfoHeader(header) => header.wf(),
            DIBHeader::Unsupported(_) => true,
        }
    }

    /// What `parse` returns on the bytes `s`: the type tag selects between
    /// decoding the body and passing over 36 bytes of it.
    pub open spec fn spec_parse(s: Seq<u8>) -> Result<(Seq<u8>, DIBHeader), ParseError> {
        match DIBHeaderType::spec_parse(s) {
            Err(e) => Err(e),
            Ok((body, DIBHeaderType::BitmapInfoHeader)) => match BitmapInfoHeader::spec_parse(
                body,
            ) {
                Ok((rest, header)) => Ok((rest, DIBHeader::BitmapInfoHeader(header))),
                Err(e) => Err(e),
            },
            Ok((body, header_type)) => read_result(body, 36, DIBHeader::Unsupported(header_type)),
        }
    }

    /// Decodes a DIB header, type tag included.
    pub fn parse<'a>(input: &'a [u8]) -> (r: Result<(&'a [u8], DIBHeader), ParseError>)
        ensures
            outcome(r) == Self::spec_parse(input@),
            r matches Ok((_, header)) ==> header.wf(),
    {
        let (body, header_type) = DIBHeaderType::parse(input)?;
        match header_type {
            DIBHeaderType::BitmapInfoHeader => {
                let (rest, header) = BitmapInfoHeader::parse(body)?;
                Ok((rest, DIBHeader::BitmapInfoHeader(header)))
            },
            _ => {
                let (rest, _) = take(body, 36)?;
                Ok((rest, DIBHeader::Unsupported(header_type)))
            },
        }
    }
}

/// Each kind of header is found again from its size code: the code maps
/// back to the kind, and so do the four bytes that encode the code, whatever
/// follows them.
pub proof fn lemma_header_type_round_trip(header_type: DIBHeaderType, tail: Seq<u8>)
    ensures
        DIBHeaderType::spec_try_from(header_type.spec_code()) == Ok::<DIBHeaderType, u32>(
            header_type,
        ),
        DIBHeaderType::spec_parse(le_u32_bytes(header_type.spec_code()) + tail) == Ok::<
            (Seq<u8>, DIBHeaderType),
            ParseError,
        >((tail, header_type)),
{
    lemma_le_u32_round_trip(header_type.spec_code(), tail);
}

/// A size field that holds the code of no kind of header is refused, and
/// the error carries the value that was read.
pub proof fn lemma_unknown_header_type_is_refused(value: u32, tail: Seq<u8>)
    requires
        forall|header_type: DIBHeaderType| header_type.spec_code() != value,
    ensures
        DIBHeaderType::spec_try_from(value) == Err::<DIBHeaderType, u32>(value),
        DIBHeaderType::spec_parse(le_u32_bytes(value) + tail) == Err::<
            (Seq<u8>, DIBHeaderType),
            ParseError,
        >(ParseError::UnrecognizedHeaderType(value)),
{
    lemma_le_u32_round_trip(value, tail);
    assert(DIBHeaderType::BitmapCoreHeader.spec_code() != value);
    assert(DIBHeaderType::BitmapCoreHeader2.spec_code() != value);
    assert(DIBHeaderType::BitmapInfoHeader.spec_code() != value);
    assert(DIBHeaderType::BitmapV2InfoHeader.spec_code() != value);
    assert(DIBHeaderType::BitMapV3InfoHeader.spec_code() != value);
    assert(DIBHeaderType::BitmapV4InfoHeader.spec_code() != value);
    assert(DIBHeaderType::BitmapV5InfoHeader.spec_code() != value);
}

/// A body that states a number of color planes other than one is refused
/// for that, whatever its other fields hold.
pub proof fn lemma_color_planes_must_be_one(s: Seq<u8>)
    requires
        s.len() >= 10,
        le_u16_value(s.skip(8)) != 1,
    ensures
        BitmapInfoHeader::spec_parse(s) == Err::<(Seq<u8>, BitmapInfoHeader), ParseError>(
            ParseError::InvalidField("Color Planes"),
        ),
{
}

/// With compression method zero every stored image size is accepted, zero
/// included: a complete body with one color plane is decoded.
pub proof fn lemma_uncompressed_accepts_any_image_size(s: Seq<u8>)
    requires
        s.len() >= 36,
        le_u16_value(s.skip(8)) == 1,
        le_u32_value(s.skip(12)) == 0,
    ensures
        BitmapInfoHeader::spec_parse(s) matches Ok((rest, header)) && rest == s.skip(36)
            && header.compression == 0 && header.image_size == le_u32_value(s.skip(16)),
{
}

/// With any other compression method a stored image size of zero is
/// refused.
pub proof fn lemma_compressed_rejects_zero_image_size(s: Seq<u8>)
    requires
        s.len() >= 20,
        le_u16_value(s.skip(8)) == 1,
        le_u32_value(s.skip(12)) != 0,
        le_u32_value(s.skip(16)) == 0,
    ensures
        BitmapInfoHeader::spec_parse(s) == Err::<(Seq<u8>, BitmapInfoHeader), ParseError>(
            ParseError::InvalidField("Raw Image Size"),
        ),
{
}

/// A stored color count of zero stands for two to the power of the bit
/// depth, as long as that fits the field; any other count stands for itself.
pub proof fn lemma_effective_colors(bits_per_pixel: u16, raw: u32)
    ensures
        raw != 0 ==> BitmapInfoHeader::spec_effective_colors(bits_per_pixel, raw) == raw,
        raw == 0 && bits_per_pixel < 32 ==> BitmapInfoHeader::spec_effective_colors(
            bits_per_pixel,
            raw,
        ) == pow2(bits_per_pixel as nat),
        raw == 0 && bits_per_pixel >= 32 ==> BitmapInfoHeader::spec_effective_colors(
            bits_per_pixel,
            raw,
        ) == 0,
{
    if bits_per_pixel < 32 {
        lemma_u32_pow2_no_overflow(bits_per_pixel as nat);
    } else {
        let high = (bits_per_pixel - 32) as nat;
        lemma2_to64();
        lemma_pow2_adds(high, 32);
        lemma_mod_multiples_basic(pow2(high) as int, 0x1_0000_0000);
    }
}

/// Whatever body is decoded is well formed.
pub proof fn lemma_decoded_body_is_wf(s: Seq<u8>)
    ensures
        BitmapInfoHeader::spec_parse(s) matches Ok((_, header)) ==> header.wf(),
{
    let bits_per_pixel = le_u16_value(s.skip(10));
    lemma_effective_colors(bits_per_pixel, le_u32_value(s.skip(28)));
    lemma_pow2_pos(bits_per_pixel as nat);
}

/// Whatever DIB header is decoded is well formed.
pub proof fn lemma_decoded_header_is_wf(s: Seq<u8>)
    ensures
        DIBHeader::spec_parse(s) matches Ok((_, header)) ==> header.wf(),
{
    lemma_decoded_body_is_wf(s.skip(4));
}

} // verus!
