use rusty_imager::formats::bmp::Bmp;
use rusty_imager::formats::ImageFormat;
use rusty_imager::models::Pixel;

#[test]
fn test_invalid_parsing() {
    let parsed = Bmp::parse(&[45, 55, 2, 38]);
    assert!(parsed.is_none());
}

#[test]
fn test_invalid_header() {
    let data: [u8; 0x1CA] = [
        0x43, 0x4D, 0xCA, 0x01, 0x00, 0x00, 0x00, 0x00, 0x00, 0x00, 0x8A, 0x00, 0x00, 0x00, 0x7C, 0x00, 
        0x00, 0x00, 0x0A, 0x00, 0x00, 0x00, 0x0A, 0x00, 0x00, 0x00, 0x01, 0x00, 0x18, 0x00, 0x00, 0x00, 
        0x00, 0x00, 0x40, 0x01, 0x00, 0x00, 0x12, 0x0B, 0x00, 0x00, 0x12, 0x0B, 0x00, 0x00, 0x00, 0x00, 
        0x00, 0x00, 0x00, 0x00, 0x00, 0x00, 0x00, 0x00, 0xFF, 0x00, 0x00, 0xFF, 0x00, 0x00, 0xFF, 0x00, 
        0x00, 0x00, 0x00, 0x00, 0x00, 0x00, 0x42, 0x47, 0x52, 0x73, 0x00, 0x00, 0x00, 0x00, 0x00, 0x00, 
        0x00, 0x00, 0x00, 0x00, 0x00, 0x00, 0x00, 0x00, 0x00, 0x00, 0x00, 0x00, 0x00, 0x00, 0x00, 0x00, 
        0x00, 0x00, 0x00, 0x00, 0x00, 0x00, 0x00, 0x00, 0x00, 0x00, 0x00, 0x00, 0x00, 0x00, 0x00, 0x00, 
        0x00, 0x00, 0x00, 0x00, 0x00, 0x00, 0x00, 0x00, 0x00, 0x00, 0x02, 0x00, 0x00, 0x00, 0x00, 0x00, 
        0x00, 0x00, 0x00, 0x00, 0x00, 0x00, 0x00, 0x00, 0x00, 0x00, 0xFF, 0xFF, 0xFF, 0x80, 0x80, 0x80, 
        0x80, 0x80, 0xFF, 0x80, 0xFF, 0xFF, 0x00, 0xFF, 0xFF, 0xFF, 0xFF, 0x00, 0xFF, 0x00, 0x00, 0x00, 
        0xFF, 0x00, 0x00, 0x00, 0xFF, 0x00, 0x00, 0x00, 0x00, 0x00, 0x00, 0x00, 0x00, 0x00, 0x00, 0xFF, 
        0x00, 0xFF, 0x00, 0xFF, 0x00, 0x00, 0xFF, 0xFF, 0x00, 0x00, 0xFF, 0xFF, 0x80, 0xFF, 0xFF, 0x80, 
        0x80, 0xFF, 0x80, 0x80, 0x80, 0xFF, 0xFF, 0xFF, 0x00, 0x00, 0xFF, 0xFF, 0xFF, 0x80, 0x80, 0x80, 
        0x80, 0x80, 0xFF, 0x80, 0xFF, 0xFF, 0x00, 0xFF, 0xFF, 0xFF, 0xFF, 0x00, 0xFF, 0x00, 0x00, 0x00, 
        0xFF, 0x00, 0x00, 0x00, 0xFF, 0x00, 0x00, 0x00, 0x00, 0x00, 0x00, 0x00, 0x00, 0x00, 0x00, 0xFF, 
        0x00, 0xFF, 0x00, 0xFF, 0x00, 0x00, 0xFF, 0xFF, 0x00, 0x00, 0xFF, 0xFF, 0x80, 0xFF, 0xFF, 0x80, 
        0x80, 0xFF, 0x80, 0x80, 0x80, 0xFF, 0xFF, 0xFF, 0x00, 0x00, 0xFF, 0xFF, 0xFF, 0x80, 0x80, 0x80, 
        0x80, 0x80, 0xFF, 0x80, 0xFF, 0xFF, 0x00, 0xFF, 0xFF, 0xFF, 0xFF, 0x00, 0xFF, 0x00, 0x00, 0x00, 
        0xFF, 0x00, 0x00, 0x00, 0xFF, 0x00, 0x00, 0x00, 0x00, 0x00, 0x00, 0x00, 0x00, 0x00, 0x00, 0xFF, 
        0x00, 0xFF, 0x00, 0xFF, 0x00, 0x00, 0xFF, 0xFF, 0x00, 0x00, 0xFF, 0xFF, 0x80, 0xFF, 0xFF, 0x80, 
        0x80, 0xFF, 0x80, 0x80, 0x80, 0xFF, 0xFF, 0xFF, 0x00, 0x00, 0xFF, 0xFF, 0xFF, 0x80, 0x80, 0x80, 
        0x80, 0x80, 0xFF, 0x80, 0xFF, 0xFF, 0x00, 0xFF, 0xFF, 0xFF, 0xFF, 0x00, 0xFF, 0x00, 0x00, 0x00, 
        0xFF, 0x00, 0x00, 0x00, 0xFF, 0x00, 0x00, 0x00, 0x00, 0x00, 0x00, 0x00, 0x00, 0x00, 0x00, 0xFF, 
        0x00, 0xFF, 0x00, 0xFF, 0x00, 0x00, 0xFF, 0xFF, 0x00, 0x00, 0xFF, 0xFF, 0x80, 0xFF, 0xFF, 0x80, 
        0x80, 0xFF, 0x80, 0x80, 0x80, 0xFF, 0xFF, 0xFF, 0x00, 0x00, 0xFF, 0xFF, 0xFF, 0x80, 0x80, 0x80, 
        0x80, 0x80, 0xFF, 0x80, 0xFF, 0xFF, 0x00, 0xFF, 0xFF, 0xFF, 0xFF, 0x00, 0xFF, 0x00, 0x00, 0x00, 
        0xFF, 0x00, 0x00, 0x00, 0xFF, 0x00, 0x00, 0x00, 0x00, 0x00, 0x00, 0x00, 0x00, 0x00, 0x00, 0xFF, 
        0x00, 0xFF, 0x00, 0xFF, 0x00, 0x00, 0xFF, 0xFF, 0x00, 0x00, 0xFF, 0xFF, 0x80, 0xFF, 0xFF, 0x80, 
        0x80, 0xFF, 0x80, 0x80, 0x80, 0xFF, 0xFF, 0xFF, 0x00, 0x00, 
    ];

    let parsed = Bmp::parse(&data);

    assert!(parsed.is_none());
}

/// A bitmap of ten by ten pixels with a header of 124 bytes, as an image
/// editor writes it: every row of 30 bytes is followed by two zero bytes.
fn reference_bitmap() -> Vec<u8> {
    let data: [u8; 0x1CA] = [
        0x42, 0x4D, 0xCA, 0x01, 0x00, 0x00, 0x00, 0x00, 0x00, 0x00, 0x8A, 0x00, 0x00, 0x00, 0x7C, 0x00, 
        0x00, 0x00, 0x0A, 0x00, 0x00, 0x00, 0x0A, 0x00, 0x00, 0x00, 0x01, 0x00, 0x18, 0x00, 0x00, 0x00, 
        0x00, 0x00, 0x40, 0x01, 0x00, 0x00, 0x12, 0x0B, 0x00, 0x00, 0x12, 0x0B, 0x00, 0x00, 0x00, 0x00, 
        0x00, 0x00, 0x00, 0x00, 0x00, 0x00, 0x00, 0x00, 0xFF, 0x00, 0x00, 0xFF, 0x00, 0x00, 0xFF, 0x00, 
        0x00, 0x00, 0x00, 0x00, 0x00, 0x00, 0x42, 0x47, 0x52, 0x73, 0x00, 0x00, 0x00, 0x00, 0x00, 0x00, 
        0x00, 0x00, 0x00, 0x00, 0x00, 0x00, 0x00, 0x00, 0x00, 0x00, 0x00, 0x00, 0x00, 0x00, 0x00, 0x00, 
        0x00, 0x00, 0x00, 0x00, 0x00, 0x00, 0x00, 0x00, 0x00, 0x00, 0x00, 0x00, 0x00, 0x00, 0x00, 0x00, 
        0x00, 0x00, 0x00, 0x00, 0x00, 0x00, 0x00, 0x00, 0x00, 0x00, 0x02, 0x00, 0x00, 0x00, 0x00, 0x00, 
        0x00, 0x00, 0x00, 0x00, 0x00, 0x00, 0x00, 0x00, 0x00, 0x00, 0xFF, 0xFF, 0xFF, 0x80, 0x80, 0x80, 
        0x80, 0x80, 0xFF, 0x80, 0xFF, 0xFF, 0x00, 0xFF, 0xFF, 0xFF, 0xFF, 0x00, 0xFF, 0x00, 0x00, 0x00, 
        0xFF, 0x00, 0x00, 0x00, 0xFF, 0x00, 0x00, 0x00, 0x00, 0x00, 0x00, 0x00, 0x00, 0x00, 0x00, 0xFF, 
        0x00, 0xFF, 0x00, 0xFF, 0x00, 0x00, 0xFF, 0xFF, 0x00, 0x00, 0xFF, 0xFF, 0x80, 0xFF, 0xFF, 0x80, 
        0x80, 0xFF, 0x80, 0x80, 0x80, 0xFF, 0xFF, 0xFF, 0x00, 0x00, 0xFF, 0xFF, 0xFF, 0x80, 0x80, 0x80, 
        0x80, 0x80, 0xFF, 0x80, 0xFF, 0xFF, 0x00, 0xFF, 0xFF, 0xFF, 0xFF, 0x00, 0xFF, 0x00, 0x00, 0x00, 
        0xFF, 0x00, 0x00, 0x00, 0xFF, 0x00, 0x00, 0x00, 0x00, 0x00, 0x00, 0x00, 0x00, 0x00, 0x00, 0xFF, 
        0x00, 0xFF, 0x00, 0xFF, 0x00, 0x00, 0xFF, 0xFF, 0x00, 0x00, 0xFF, 0xFF, 0x80, 0xFF, 0xFF, 0x80, 
        0x80, 0xFF, 0x80, 0x80, 0x80, 0xFF, 0xFF, 0xFF, 0x00, 0x00, 0xFF, 0xFF, 0xFF, 0x80, 0x80, 0x80, 
        0x80, 0x80, 0xFF, 0x80, 0xFF, 0xFF, 0x00, 0xFF, 0xFF, 0xFF, 0xFF, 0x00, 0xFF, 0x00, 0x00, 0x00, 
        0xFF, 0x00, 0x00, 0x00, 0xFF, 0x00, 0x00, 0x00, 0x00, 0x00, 0x00, 0x00, 0x00, 0x00, 0x00, 0xFF, 
        0x00, 0xFF, 0x00, 0xFF, 0x00, 0x00, 0xFF, 0xFF, 0x00, 0x00, 0xFF, 0xFF, 0x80, 0xFF, 0xFF, 0x80, 
        0x80, 0xFF, 0x80, 0x80, 0x80, 0xFF, 0xFF, 0xFF, 0x00, 0x00, 0xFF, 0xFF, 0xFF, 0x80, 0x80, 0x80, 
        0x80, 0x80, 0xFF, 0x80, 0xFF, 0xFF, 0x00, 0xFF, 0xFF, 0xFF, 0xFF, 0x00, 0xFF, 0x00, 0x00, 0x00, 
        0xFF, 0x00, 0x00, 0x00, 0xFF, 0x00, 0x00, 0x00, 0x00, 0x00, 0x00, 0x00, 0x00, 0x00, 0x00, 0xFF, 
        0x00, 0xFF, 0x00, 0xFF, 0x00, 0x00, 0xFF, 0xFF, 0x00, 0x00, 0xFF, 0xFF, 0x80, 0xFF, 0xFF, 0x80, 
        0x80, 0xFF, 0x80, 0x80, 0x80, 0xFF, 0xFF, 0xFF, 0x00, 0x00, 0xFF, 0xFF, 0xFF, 0x80, 0x80, 0x80, 
        0x80, 0x80, 0xFF, 0x80, 0xFF, 0xFF, 0x00, 0xFF, 0xFF, 0xFF, 0xFF, 0x00, 0xFF, 0x00, 0x00, 0x00, 
        0xFF, 0x00, 0x00, 0x00, 0xFF, 0x00, 0x00, 0x00, 0x00, 0x00, 0x00, 0x00, 0x00, 0x00, 0x00, 0xFF, 
        0x00, 0xFF, 0x00, 0xFF, 0x00, 0x00, 0xFF, 0xFF, 0x00, 0x00, 0xFF, 0xFF, 0x80, 0xFF, 0xFF, 0x80, 
        0x80, 0xFF, 0x80, 0x80, 0x80, 0xFF, 0xFF, 0xFF, 0x00, 0x00, 
    ];

    data.to_vec()
}

#[test]
fn test_valid_parsing() {
    let parsed = Bmp::parse(&reference_bitmap());

    assert!(parsed.is_some());
}

#[test]
fn reference_bitmap_is_read_as_declared() {
    let data = reference_bitmap();
    let bmp = Bmp::parse(&data).unwrap();
    assert_eq!(bmp.get_size(), 458);
    assert_eq!(bmp.header.data_offset, 138);
    assert_eq!(bmp.info.size, 124);
    assert_eq!(bmp.get_width(), 10);
    assert_eq!(bmp.get_height(), 10);
    assert_eq!(bmp.info.padding.len(), 84);
    assert_eq!(bmp.info.padding, data[54..138].to_vec());
    assert_eq!(bmp.data.len(), 106);
    assert_eq!(bmp.get_pixel(0, 0), Some(&Pixel { r: 255, g: 255, b: 255 }));
    assert_eq!(bmp.get_pixel(1, 0), Some(&Pixel { r: 128, g: 128, b: 128 }));
    assert_eq!(bmp.get_pixel(2, 0), Some(&Pixel { r: 255, g: 128, b: 128 }));
    assert!(bmp.get_pixel(10, 0).is_none());
    assert!(bmp.get_pixel(0, 10).is_none());
    assert_eq!(bmp.to_bytes(), data);
    let again = Bmp::parse(&bmp.to_bytes()).unwrap();
    assert_eq!(again.data, bmp.data);
    assert_eq!(again.info.padding, bmp.info.padding);
}

/// A bitmap of `width` by `height` pixels with the given bytes between the
/// info header and the pixel data, the pixels as blue-green-red triples, and
/// the two closing zero bytes.
fn bitmap(width: u32, height: u32, bits: u16, padding: &[u8], pixel_bytes: &[u8]) -> Vec<u8> {
    let offset = 54 + padding.len() as u32;
    let size = offset + pixel_bytes.len() as u32 + 2;
    let mut data = vec![0x42, 0x4D];
    data.extend_from_slice(&size.to_le_bytes());
    data.extend_from_slice(&0u32.to_le_bytes());
    data.extend_from_slice(&offset.to_le_bytes());
    data.extend_from_slice(&40u32.to_le_bytes());
    data.extend_from_slice(&width.to_le_bytes());
    data.extend_from_slice(&height.to_le_bytes());
    data.extend_from_slice(&1u16.to_le_bytes());
    data.extend_from_slice(&bits.to_le_bytes());
    data.extend_from_slice(&0u32.to_le_bytes());
    data.extend_from_slice(&(pixel_bytes.len() as u32).to_le_bytes());
    data.extend_from_slice(&2835u32.to_le_bytes());
    data.extend_from_slice(&2834u32.to_le_bytes());
    data.extend_from_slice(&0u32.to_le_bytes());
    data.extend_from_slice(&0u32.to_le_bytes());
    data.extend_from_slice(padding);
    data.extend_from_slice(pixel_bytes);
    data.extend_from_slice(&[0, 0]);
    data
}

const TWO_BY_TWO: [u8; 12] = [1, 2, 3, 4, 5, 6, 7, 8, 9, 10, 11, 12];

#[test]
fn bmp_parse_two_by_two() {
    let data = bitmap(2, 2, 24, &[], &TWO_BY_TWO);
    assert_eq!(data.len(), 68);
    let bmp = Bmp::parse(&data).unwrap();
    assert_eq!(bmp.get_width(), 2);
    assert_eq!(bmp.get_height(), 2);
    assert_eq!(bmp.info.bits_per_pixel, 24);
    assert_eq!(bmp.header.data_offset, 54);
    assert_eq!(bmp.get_pixel(0, 0), Some(&Pixel { r: 3, g: 2, b: 1 }));
    assert_eq!(bmp.get_pixel(1, 0), Some(&Pixel { r: 6, g: 5, b: 4 }));
    assert_eq!(bmp.get_pixel(0, 1), Some(&Pixel { r: 9, g: 8, b: 7 }));
    assert_eq!(bmp.get_pixel(1, 1), Some(&Pixel { r: 12, g: 11, b: 10 }));
    assert_eq!(bmp.to_bytes(), data);
}

#[test]
fn parse_reads_every_header_field() {
    let data = bitmap(2, 2, 24, &[], &TWO_BY_TWO);
    let bmp = Bmp::parse(&data).unwrap();
    assert_eq!(bmp.header.signature, [0x42, 0x4D]);
    assert_eq!(bmp.header.file_size, 68);
    assert_eq!(bmp.header.reserved, 0);
    assert_eq!(bmp.info.size, 40);
    assert_eq!(bmp.info.width, 2);
    assert_eq!(bmp.info.height, 2);
    assert_eq!(bmp.info.planes, 1);
    assert_eq!(bmp.info.compression, 0);
    assert_eq!(bmp.info.image_size, 12);
    assert_eq!(bmp.info.h_res, 2835);
    assert_eq!(bmp.info.v_res, 2834);
    assert_eq!(bmp.info.colors, 0);
    assert_eq!(bmp.info.important_colors, 0);
    assert!(bmp.info.padding.is_empty());
    assert!(bmp.colors.is_none());
    assert_eq!(bmp.get_size(), 68);
    assert_eq!(bmp.get_signature(), "BM");
}

#[test]
fn parse_keeps_bytes_before_the_pixels() {
    let padding = [9u8, 8, 7, 6, 5];
    let data = bitmap(1, 2, 24, &padding, &[1, 2, 3, 4, 5, 6]);
    let bmp = Bmp::parse(&data).unwrap();
    assert_eq!(bmp.header.data_offset, 59);
    assert_eq!(bmp.info.padding, padding.to_vec());
    assert_eq!(bmp.get_pixel(0, 1), Some(&Pixel { r: 6, g: 5, b: 4 }));
    assert_eq!(bmp.to_bytes(), data);
}

#[test]
fn bmp_parse_rejects_what_it_does_not_support() {
    assert!(Bmp::parse(&[]).is_none());
    assert!(Bmp::parse(&[0x42, 0x4D]).is_none());
    let good = bitmap(2, 2, 24, &[], &TWO_BY_TWO);
    assert!(Bmp::parse(&good[..13]).is_none());
    assert!(Bmp::parse(&good[..53]).is_none());
    assert!(Bmp::parse(&bitmap(2, 2, 8, &[], &TWO_BY_TWO)).is_none());
    assert!(Bmp::parse(&bitmap(2, 2, 32, &[], &TWO_BY_TWO)).is_none());
    // One pixel is missing.
    assert!(Bmp::parse(&bitmap(2, 2, 24, &[], &TWO_BY_TWO[..7])).is_none());
    // The declared offset lies behind the end of the file.
    let mut far = good.clone();
    far[10] = 200;
    assert!(Bmp::parse(&far).is_none());
    // The declared offset lies inside the info header.
    let mut near = good.clone();
    near[10] = 40;
    assert!(Bmp::parse(&near).is_none());
    // The declared size is far beyond the file.
    let mut huge = good.clone();
    huge[18..22].copy_from_slice(&u32::MAX.to_le_bytes());
    huge[22..26].copy_from_slice(&u32::MAX.to_le_bytes());
    assert!(Bmp::parse(&huge).is_none());
}

#[test]
fn parse_keeps_the_triples_behind_the_picture() {
    let mut pixel_bytes = TWO_BY_TWO.to_vec();
    pixel_bytes.extend_from_slice(&[77, 78, 79, 80, 81]);
    let data = bitmap(2, 2, 24, &[], &pixel_bytes);
    let mut bmp = Bmp::parse(&data).unwrap();
    // Seventeen bytes of pixel data and the two closing bytes: six triples
    // and one byte over.
    assert_eq!(bmp.data.len(), 6);
    assert_eq!(bmp.data[4], Pixel { r: 79, g: 78, b: 77 });
    assert_eq!(bmp.data[5], Pixel { r: 0, g: 81, b: 80 });
    assert_eq!(bmp.get_pixel(1, 1), Some(&Pixel { r: 12, g: 11, b: 10 }));
    assert!(bmp.get_pixel(0, 2).is_none());
    assert!(bmp.set_pixel(0, 2, Pixel { r: 1, g: 1, b: 1 }).is_none());
    let written = bmp.to_bytes();
    assert_eq!(written.len(), data.len() + 1);
    assert_eq!(written[..54 + 18], data[..54 + 18]);
    assert_eq!(written[54 + 18..], [0, 0]);
}

#[test]
fn bmp_parse_an_empty_picture() {
    let data = bitmap(0, 5, 24, &[], &[]);
    let bmp = Bmp::parse(&data).unwrap();
    assert_eq!(bmp.get_width(), 0);
    assert_eq!(bmp.get_height(), 5);
    assert!(bmp.get_pixel(0, 0).is_none());
    assert_eq!(bmp.to_bytes(), data);
}

#[test]
fn bmp_pixels_outside_the_picture() {
    let data = bitmap(3, 2, 24, &[], &[0; 18]);
    let mut bmp = Bmp::parse(&data).unwrap();
    let p = Pixel { r: 1, g: 2, b: 3 };
    assert!(bmp.get_pixel(3, 0).is_none());
    assert!(bmp.get_pixel(0, 2).is_none());
    assert!(bmp.get_pixel(usize::MAX, usize::MAX).is_none());
    assert!(bmp.set_pixel(3, 0, p).is_none());
    assert!(bmp.set_pixel(0, 2, p).is_none());
    assert!(bmp.set_pixel(usize::MAX, 0, p).is_none());
    assert_eq!(bmp.to_bytes(), data);
    assert_eq!(bmp.set_pixel(2, 1, p), Some(()));
    assert_eq!(bmp.get_pixel(2, 1), Some(&p));
    assert_eq!(bmp.get_pixel(1, 1), Some(&Pixel { r: 0, g: 0, b: 0 }));
}

#[test]
fn rows_and_columns_are_kept_apart() {
    let mut bytes = Vec::new();
    for i in 0..6u8 {
        bytes.extend_from_slice(&[i, i, i]);
    }
    let bmp = Bmp::parse(&bitmap(3, 2, 24, &[], &bytes)).unwrap();
    for y in 0..2usize {
        for x in 0..3usize {
            let v = (y * 3 + x) as u8;
            assert_eq!(bmp.get_pixel(x, y), Some(&Pixel { r: v, g: v, b: v }));
        }
    }
}

#[test]
fn bmp_round_trip_after_an_edit() {
    let data = bitmap(2, 2, 24, &[1, 2, 3], &TWO_BY_TWO);
    let mut bmp = Bmp::parse(&data).unwrap();
    bmp.set_pixel(1, 0, Pixel { r: 200, g: 100, b: 50 }).unwrap();
    let again = Bmp::parse(&bmp.to_bytes()).unwrap();
    assert_eq!(again.get_width(), 2);
    assert_eq!(again.get_height(), 2);
    assert_eq!(again.info.bits_per_pixel, 24);
    assert_eq!(again.data, bmp.data);
    assert_eq!(again.get_pixel(1, 0), Some(&Pixel { r: 200, g: 100, b: 50 }));
    assert_eq!(again.to_bytes(), bmp.to_bytes());
}

#[test]
fn parts_of_the_file() {
    let data = bitmap(2, 2, 24, &[5, 6], &TWO_BY_TWO);
    let header = Bmp::parse_header(&data).unwrap();
    assert_eq!(header.data_offset, 56);
    let info = Bmp::parse_info(&data, header.data_offset).unwrap();
    assert_eq!(info.padding, vec![5, 6]);
    assert!(Bmp::parse_info(&data, 53).is_none());
    assert!(Bmp::parse_info(&data, data.len() as u32 + 1).is_none());
    let pixels = Bmp::parse_pixels(&data[56..], &info).unwrap();
    assert_eq!(pixels.len(), 4);
    assert_eq!(pixels[0], Pixel { r: 3, g: 2, b: 1 });
    let table = Bmp::parse_table(&data).unwrap();
    assert_eq!((table.red, table.green, table.blue, table.reserved), (5, 6, 1, 2));
    assert!(Bmp::parse_table(&data[..57]).is_none());
}

#[test]
fn bmp_metadata_names_the_header_fields() {
    let bmp = Bmp::parse(&bitmap(2, 2, 24, &[], &TWO_BY_TWO)).unwrap();
    let text = bmp.get_metadata();
    assert!(text.contains("BmpHeader"));
    assert!(text.contains("file_size: 68"));
    assert!(text.contains("BmpInfo"));
    assert!(text.contains("bits_per_pixel: 24"));
    assert_eq!(
        text,
        "BmpHeader { signature: [66, 77], file_size: 68, reserved: 0, data_offset: 54 }\n\
         BmpInfo { size: 40, width: 2, height: 2, planes: 1, bits_per_pixel: 24, \
         compression: 0, image_size: 12, h_res: 2835, v_res: 2834, colors: 0, \
         important_colors: 0, padding: [] }"
    );
    let padded = Bmp::parse(&bitmap(1, 1, 24, &[7, 0, 255], &[1, 2, 3])).unwrap();
    assert!(padded.get_metadata().ends_with("padding: [7, 0, 255] }"));
}
