use bitmap_rs::{BitmapInfoHeader, ParseError};

/// The raw fields of a 36-byte body, in the order in which they are stored.
#[derive(Clone, Copy)]
struct Raw {
    width: i32,
    height: i32,
    planes: u16,
    bits_per_pixel: u16,
    compression: u32,
    image_size: u32,
    horizontal: i32,
    vertical: i32,
    colors: u32,
    important: u32,
}

const PLAIN: Raw = Raw {
    width: 2,
    height: 2,
    planes: 1,
    bits_per_pixel: 24,
    compression: 0,
    image_size: 0,
    horizontal: 0,
    vertical: 0,
    colors: 0,
    important: 0,
};

fn encode(raw: Raw) -> Vec<u8> {
    let mut bytes = Vec::new();
    bytes.extend_from_slice(&raw.width.to_le_bytes());
    bytes.extend_from_slice(&raw.height.to_le_bytes());
    bytes.extend_from_slice(&raw.planes.to_le_bytes());
    bytes.extend_from_slice(&raw.bits_per_pixel.to_le_bytes());
    bytes.extend_from_slice(&raw.compression.to_le_bytes());
    bytes.extend_from_slice(&raw.image_size.to_le_bytes());
    bytes.extend_from_slice(&raw.horizontal.to_le_bytes());
    bytes.extend_from_slice(&raw.vertical.to_le_bytes());
    bytes.extend_from_slice(&raw.colors.to_le_bytes());
    bytes.extend_from_slice(&raw.important.to_le_bytes());
    assert_eq!(bytes.len(), 36);
    bytes
}

#[test]
fn info_header_decodes_every_field() {
    let raw = Raw {
        width: 640,
        height: -480,
        planes: 1,
        bits_per_pixel: 4,
        compression: 2,
        image_size: 0x0001_2345,
        horizontal: 2835,
        vertical: -2835,
        colors: 12,
        important: 7,
    };
    assert_eq!(
        BitmapInfoHeader::parse(&encode(raw)),
        Ok((
            &[][..],
            BitmapInfoHeader {
                image_width: 640,
                image_height: -480,
                bits_per_pixel: 4,
                compression: 2,
                image_size: 0x0001_2345,
                horizontal_resolution: 2835,
                vertical_resolution: -2835,
                colors: 12,
                important_colors: 7,
            }
        ))
    );
}

#[test]
fn info_header_accepts_negative_and_extreme_dimensions() {
    let raw = Raw {
        width: i32::MIN,
        height: i32::MAX,
        horizontal: -1,
        vertical: i32::MIN,
        ..PLAIN
    };
    let (_, header) = BitmapInfoHeader::parse(&encode(raw)).unwrap();
    assert_eq!(header.image_width, i32::MIN);
    assert_eq!(header.image_height, i32::MAX);
    assert_eq!(header.horizontal_resolution, -1);
    assert_eq!(header.vertical_resolution, i32::MIN);
}

#[test]
fn info_header_derives_256_colors_from_eight_bits() {
    let raw = Raw { bits_per_pixel: 8, colors: 0, ..PLAIN };
    let (_, header) = BitmapInfoHeader::parse(&encode(raw)).unwrap();
    assert_eq!(header.colors, 256);
    assert_eq!(header.bits_per_pixel, 8);
}

#[test]
fn info_header_keeps_a_stored_color_count() {
    let raw = Raw { bits_per_pixel: 8, colors: 17, ..PLAIN };
    let (_, header) = BitmapInfoHeader::parse(&encode(raw)).unwrap();
    assert_eq!(header.colors, 17);
    let raw = Raw { bits_per_pixel: 1, colors: u32::MAX, ..PLAIN };
    let (_, header) = BitmapInfoHeader::parse(&encode(raw)).unwrap();
    assert_eq!(header.colors, u32::MAX);
}

#[test]
fn effective_colors_is_two_to_the_bit_depth() {
    assert_eq!(BitmapInfoHeader::effective_colors(0, 0), 1);
    assert_eq!(BitmapInfoHeader::effective_colors(1, 0), 2);
    assert_eq!(BitmapInfoHeader::effective_colors(4, 0), 16);
    assert_eq!(BitmapInfoHeader::effective_colors(8, 0), 256);
    assert_eq!(BitmapInfoHeader::effective_colors(16, 0), 65_536);
    assert_eq!(BitmapInfoHeader::effective_colors(24, 0), 16_777_216);
    assert_eq!(BitmapInfoHeader::effective_colors(31, 0), 0x8000_0000);
    for bits in 0u16..32 {
        assert_eq!(
            BitmapInfoHeader::effective_colors(bits, 0),
            2u32.pow(u32::from(bits))
        );
    }
}

#[test]
fn effective_colors_wraps_where_the_power_does_not_fit() {
    for bits in [32u16, 33, 64, 1000, u16::MAX] {
        assert_eq!(BitmapInfoHeader::effective_colors(bits, 0), 0);
        assert_eq!(
            BitmapInfoHeader::effective_colors(bits, 0),
            2u32.wrapping_pow(u32::from(bits))
        );
    }
    let raw = Raw { bits_per_pixel: 32, colors: 0, ..PLAIN };
    let (_, header) = BitmapInfoHeader::parse(&encode(raw)).unwrap();
    assert_eq!(header.colors, 0);
}

#[test]
fn effective_colors_passes_a_nonzero_count_through() {
    for bits in [0u16, 1, 8, 24, 32, u16::MAX] {
        assert_eq!(BitmapInfoHeader::effective_colors(bits, 1), 1);
        assert_eq!(BitmapInfoHeader::effective_colors(bits, 300), 300);
        assert_eq!(BitmapInfoHeader::effective_colors(bits, u32::MAX), u32::MAX);
    }
}

#[test]
fn info_header_accepts_zero_image_size_when_uncompressed() {
    let raw = Raw { compression: 0, image_size: 0, ..PLAIN };
    let (_, header) = BitmapInfoHeader::parse(&encode(raw)).unwrap();
    assert_eq!(header.compression, 0);
    assert_eq!(header.image_size, 0);
    let raw = Raw { compression: 0, image_size: 16, ..PLAIN };
    let (_, header) = BitmapInfoHeader::parse(&encode(raw)).unwrap();
    assert_eq!(header.image_size, 16);
}

#[test]
fn info_header_rejects_zero_image_size_when_compressed() {
    for compression in [1u32, 2, 3, 4, 5, u32::MAX] {
        let raw = Raw { compression, image_size: 0, ..PLAIN };
        assert_eq!(
            BitmapInfoHeader::parse(&encode(raw)),
            Err(ParseError::InvalidField("Raw Image Size"))
        );
        let raw = Raw { compression, image_size: 1, ..PLAIN };
        let (_, header) = BitmapInfoHeader::parse(&encode(raw)).unwrap();
        assert_eq!(header.compression, compression);
        assert_eq!(header.image_size, 1);
    }
}

#[test]
fn info_header_rejects_two_color_planes_whatever_else_it_holds() {
    let variants = [
        Raw { planes: 2, ..PLAIN },
        Raw { planes: 2, compression: 1, image_size: 0, ..PLAIN },
        Raw { planes: 2, width: -5, height: i32::MIN, bits_per_pixel: 99, colors: 3, ..PLAIN },
        Raw { planes: 2, compression: 7, image_size: 9, important: 4, ..PLAIN },
    ];
    for raw in variants {
        assert_eq!(
            BitmapInfoHeader::parse(&encode(raw)),
            Err(ParseError::InvalidField("Color Planes"))
        );
    }
}

#[test]
fn info_header_rejects_every_plane_count_but_one() {
    for planes in [0u16, 2, 3, 256, 257, u16::MAX] {
        let raw = Raw { planes, ..PLAIN };
        assert_eq!(
            BitmapInfoHeader::parse(&encode(raw)),
            Err(ParseError::InvalidField("Color Planes"))
        );
    }
}

#[test]
fn info_header_cut_short_is_truncated() {
    let bytes = encode(Raw { compression: 1, image_size: 8, colors: 5, ..PLAIN });
    for len in 0..36 {
        assert_eq!(
            BitmapInfoHeader::parse(&bytes[..len]),
            Err(ParseError::Truncated)
        );
    }
    assert!(BitmapInfoHeader::parse(&bytes).is_ok());
}

#[test]
fn info_header_reports_the_first_field_that_fails() {
    // Two planes are seen as soon as the plane count is complete.
    let bytes = encode(Raw { planes: 2, compression: 1, image_size: 0, ..PLAIN });
    for len in 0..10 {
        assert_eq!(
            BitmapInfoHeader::parse(&bytes[..len]),
            Err(ParseError::Truncated)
        );
    }
    for len in 10..=36 {
        assert_eq!(
            BitmapInfoHeader::parse(&bytes[..len]),
            Err(ParseError::InvalidField("Color Planes"))
        );
    }
    // A zero size under compression is seen once the size is complete.
    let bytes = encode(Raw { compression: 1, image_size: 0, ..PLAIN });
    for len in 0..20 {
        assert_eq!(
            BitmapInfoHeader::parse(&bytes[..len]),
            Err(ParseError::Truncated)
        );
    }
    for len in 20..=36 {
        assert_eq!(
            BitmapInfoHeader::parse(&bytes[..len]),
            Err(ParseError::InvalidField("Raw Image Size"))
        );
    }
}

#[test]
fn info_header_leaves_what_follows() {
    let mut bytes = encode(PLAIN);
    bytes.extend_from_slice(&[9, 8, 7, 6, 5]);
    let (rest, _) = BitmapInfoHeader::parse(&bytes).unwrap();
    assert_eq!(rest, &[9u8, 8, 7, 6, 5]);
}

#[test]
fn invalid_field_names_differ() {
    assert_ne!(
        ParseError::InvalidField("Color Planes"),
        ParseError::InvalidField("Raw Image Size")
    );
}
