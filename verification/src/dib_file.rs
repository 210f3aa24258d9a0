//! The two headers of a bitmap file, decoded together.

use vstd::prelude::*;

use crate::dib_header::{BitmapInfoHeader, DIBHeader, DIBHeaderType};
use crate::error::{outcome, ParseError};
use crate::file_header::{FileHeader, Signature};
use crate::reader::{le_i32_value, le_u16_value, le_u32_value};

verus! {

/// The header region of a bitmap file.
#[derive(Debug, Clone, Copy, PartialEq, Eq)]
pub struct DIBFile {
    pub file_header: FileHeader,
    pub dib_header: DIBHeader,
}

impl DIBFile {
    /// The file is well formed when its DIB header is.
    pub open spec fn wf(&self) -> bool {
        self.dib_header.wf()
    }

    /// What `parse` returns on the bytes `s`: the file header, then the DIB
    /// header on what follows it, and the first failure of either.
    pub open spec fn spec_parse(s: Seq<u8>) -> Result<(Seq<u8>, DIBFile), ParseError> {
        match FileHeader::spec_parse(s) {
            Err(e) => Err(e),
            Ok((after_file_header, file_header)) => match DIBHeader::spec_parse(
                after_file_header,
            ) {
                Err(e) => Err(e),
                Ok((rest, dib_header)) => Ok((rest, DIBFile { file_header, dib_header })),
            },
        }
    }

    /// Decodes both headers from the start of a file's bytes and returns
    /// them with the bytes that follow, which hold the pixel data.
    pub fn parse<'a>(input: &'a [u8]) -> (r: Result<(&'a [u8], DIBFile), ParseError>)
        ensures
            outcome(r) == Self::spec_parse(input@),
            r matches Ok((_, file)) ==> file.wf(),
    {
        let (input, file_header) = FileHeader::parse(input)?;
        let (rest, dib_header) = DIBHeader::parse(input)?;
        Ok((rest, DIBFile { file_header, dib_header }))
    }
}

/// An input of fewer than 14 bytes is refused as truncated, whatever it
/// holds.
pub proof fn lemma_short_input_is_truncated(s: Seq<u8>)
    requires
        s.len() < 14,
    ensures
        DIBFile::spec_parse(s) == Err::<(Seq<u8>, DIBFile), ParseError>(ParseError::Truncated),
{
}

/// The two headers are taken from the front of the input and nothing else
/// is touched: what is handed back is a tail of the input, 54 bytes in.
pub proof fn lemma_headers_take_fifty_four_bytes(s: Seq<u8>)
    ensures
        DIBFile::spec_parse(s) matches Ok((rest, _)) ==> s.len() >= 54 && rest == s.skip(54),
{
    if DIBFile::spec_parse(s) matches Ok((rest, _)) {
        assert(s.skip(14).skip(4).skip(36) =~= s.skip(54));
    }
}

/// Where the fields of an accepted file lie, counted from the start of the
/// input: the signature at 0, the file size at 2, the pixel offset at 10 and
/// the type tag at 14; and, in the 40-byte variant, width at 18, height at
/// 22, color planes at 26, bit depth at 28, compression at 30, image size at
/// 34, the two resolutions at 38 and 42, the color count at 46 and the
/// important colors at 50.
pub proof fn lemma_field_offsets(s: Seq<u8>)
    ensures
        DIBFile::spec_parse(s) matches Ok((_, file)) ==> {
            &&& Signature::spec_recognize(s[0], s[1]) == Some(file.file_header.signature)
            &&& file.file_header.file_size == le_u32_value(s.skip(2))
            &&& file.file_header.file_offset_pixels == le_u32_value(s.skip(10))
            &&& match file.dib_header {
                DIBHeader::Unsupported(header_type) => {
                    &&& header_type != DIBHeaderType::BitmapInfoHeader
                    &&& header_type.spec_code() == le_u32_value(s.skip(14))
                },
                DIBHeader::BitmapInfoHeader(header) => {
                    &&& le_u32_value(s.skip(14)) == 40
                    &&& header.image_width == le_i32_value(s.skip(18))
                    &&& header.image_height == le_i32_value(s.skip(22))
                    &&& le_u16_value(s.skip(26)) == 1
                    &&& header.bits_per_pixel == le_u16_value(s.skip(28))
                    &&& header.compression == le_u32_value(s.skip(30))
                    &&& header.image_size == le_u32_value(s.skip(34))
                    &&& header.horizontal_resolution == le_i32_value(s.skip(38))
                    &&& header.vertical_resolution == le_i32_value(s.skip(42))
                    &&& header.colors == BitmapInfoHeader::spec_effective_colors(
                        header.bits_per_pixel,
                        le_u32_value(s.skip(46)),
                    )
                    &&& header.important_colors == le_u32_value(s.skip(50))
                },
            }
        },
{
    lemma_headers_take_fifty_four_bytes(s);
    if s.len() >= 54 {
        let body = s.skip(14).skip(4);
        assert(body =~= s.skip(18));
        assert(body.skip(4) =~= s.skip(22));
        assert(body.skip(8) =~= s.skip(26));
        assert(body.skip(10) =~= s.skip(28));
        assert(body.skip(12) =~= s.skip(30));
        assert(body.skip(16) =~= s.skip(34));
        assert(body.skip(20) =~= s.skip(38));
        assert(body.skip(24) =~= s.skip(42));
        assert(body.skip(28) =~= s.skip(46));
        assert(body.skip(32) =~= s.skip(50));
    }
}

} // verus!
