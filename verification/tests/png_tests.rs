use flate2::write::ZlibEncoder;
use flate2::Compression;
use rusty_imager::formats::png::{Png, PngChunk, PngColorType, PngInterlacing, PngUnit};
use rusty_imager::formats::png_write::write_frame;
use rusty_imager::formats::ImageFormat;
use rusty_imager::models::Pixel;
use std::io::Write;

const MAGIC: [u8; 8] = [0x89, 0x50, 0x4E, 0x47, 0x0D, 0x0A, 0x1A, 0x0A];

fn chunk(tag: &[u8; 4], payload: &[u8]) -> Vec<u8> {
    let mut covered = tag.to_vec();
    covered.extend_from_slice(payload);
    let mut out = (payload.len() as u32).to_be_bytes().to_vec();
    out.extend_from_slice(&covered);
    out.extend_from_slice(&crc32fast::hash(&covered).to_be_bytes());
    out
}

fn ihdr(width: u32, height: u32, depth: u8, color: u8, interlace: u8) -> Vec<u8> {
    let mut payload = width.to_be_bytes().to_vec();
    payload.extend_from_slice(&height.to_be_bytes());
    payload.extend_from_slice(&[depth, color, 0, 0, interlace]);
    chunk(b"IHDR", &payload)
}

fn zlib(bytes: &[u8]) -> Vec<u8> {
    let mut encoder = ZlibEncoder::new(Vec::new(), Compression::default());
    encoder.write_all(bytes).unwrap();
    encoder.finish().unwrap()
}

fn file(parts: &[Vec<u8>]) -> Vec<u8> {
    let mut out = MAGIC.to_vec();
    for part in parts {
        out.extend_from_slice(part);
    }
    out
}

fn one_by_two() -> Vec<u8> {
    file(&[
        ihdr(1, 2, 8, 2, 0),
        chunk(b"IDAT", &zlib(&[0, 10, 20, 30, 0, 40, 50, 60])),
        chunk(b"IEND", &[]),
    ])
}

#[test]
fn png_parse_one_by_two() {
    let png = Png::parse(&one_by_two()).unwrap();
    assert_eq!(png.get_width(), 1);
    assert_eq!(png.get_height(), 2);
    assert_eq!(png.get_pixel(0, 0), Some(&Pixel { r: 10, g: 20, b: 30 }));
    assert_eq!(png.get_pixel(0, 1), Some(&Pixel { r: 40, g: 50, b: 60 }));
    assert!(png.get_pixel(1, 0).is_none());
    assert!(png.get_pixel(0, 2).is_none());
    assert_eq!(png.pixels.len(), 2);
    assert_eq!(png.filters, vec![0, 0]);
    assert_eq!(png.chunks.len(), 3);
}

#[test]
fn parse_reads_the_image_header() {
    let png = Png::parse(&one_by_two()).unwrap();
    match &png.chunks[0] {
        PngChunk::IHDR(h) => {
            assert_eq!(h.length, 13);
            assert_eq!(&h.signature, b"IHDR");
            assert_eq!(h.width, 1);
            assert_eq!(h.height, 2);
            assert_eq!(h.bit_depth, 8);
            assert_eq!(h.color_type, PngColorType::RGB);
            assert_eq!(h.compression_method, 0);
            assert_eq!(h.filter_method, 0);
            assert_eq!(h.interlacing, PngInterlacing::Off);
        }
        _ => panic!("the first chunk is the image header"),
    }
    assert!(matches!(png.chunks[1], PngChunk::IDAT(_)));
    assert!(matches!(png.chunks[2], PngChunk::IEND(_)));
    assert_eq!(png.header.high_byte, 0x89);
    assert_eq!(&png.header.signature, b"PNG");
    assert_eq!(png.get_signature(), "PNG");
}

#[test]
fn parse_joins_the_data_chunks() {
    let stream = zlib(&[0, 1, 2, 3, 4, 5, 6, 0, 7, 8, 9, 10, 11, 12]);
    let (first, second) = stream.split_at(stream.len() / 2);
    let data = file(&[
        ihdr(2, 2, 8, 2, 0),
        chunk(b"IDAT", first),
        chunk(b"IDAT", second),
        chunk(b"IEND", &[]),
    ]);
    let png = Png::parse(&data).unwrap();
    assert_eq!(png.get_pixel(0, 0), Some(&Pixel { r: 1, g: 2, b: 3 }));
    assert_eq!(png.get_pixel(1, 0), Some(&Pixel { r: 4, g: 5, b: 6 }));
    assert_eq!(png.get_pixel(0, 1), Some(&Pixel { r: 7, g: 8, b: 9 }));
    assert_eq!(png.get_pixel(1, 1), Some(&Pixel { r: 10, g: 11, b: 12 }));
}

#[test]
fn parse_undoes_the_row_filters() {
    let lines = [1, 10, 20, 30, 5, 5, 5, 2, 1, 1, 1, 2, 2, 2];
    let data = file(&[ihdr(2, 2, 8, 2, 0), chunk(b"IDAT", &zlib(&lines)), chunk(b"IEND", &[])]);
    let png = Png::parse(&data).unwrap();
    assert_eq!(png.filters, vec![1, 2]);
    assert_eq!(png.get_pixel(0, 0), Some(&Pixel { r: 10, g: 20, b: 30 }));
    assert_eq!(png.get_pixel(1, 0), Some(&Pixel { r: 15, g: 25, b: 35 }));
    assert_eq!(png.get_pixel(0, 1), Some(&Pixel { r: 11, g: 21, b: 31 }));
    assert_eq!(png.get_pixel(1, 1), Some(&Pixel { r: 17, g: 27, b: 37 }));
}

#[test]
fn png_parse_rejects_what_it_does_not_support() {
    let idat = chunk(b"IDAT", &zlib(&[0, 10, 20, 30, 0, 40, 50, 60]));
    let iend = chunk(b"IEND", &[]);
    assert!(Png::parse(&[]).is_none());
    assert!(Png::parse(&MAGIC[..7]).is_none());
    // No image header, no picture data.
    assert!(Png::parse(&MAGIC).is_none());
    assert!(Png::parse(&file(&[idat.clone(), iend.clone()])).is_none());
    assert!(Png::parse(&file(&[ihdr(1, 2, 8, 2, 0), iend.clone()])).is_none());
    // Interlaced, grey, palette, sixteen bits.
    assert!(Png::parse(&file(&[ihdr(1, 2, 8, 2, 1), idat.clone(), iend.clone()])).is_none());
    assert!(Png::parse(&file(&[ihdr(1, 2, 8, 2, 2), idat.clone(), iend.clone()])).is_none());
    assert!(Png::parse(&file(&[ihdr(1, 2, 8, 0, 0), idat.clone(), iend.clone()])).is_none());
    assert!(Png::parse(&file(&[ihdr(1, 2, 8, 3, 0), idat.clone(), iend.clone()])).is_none());
    assert!(Png::parse(&file(&[ihdr(1, 2, 16, 2, 0), idat.clone(), iend.clone()])).is_none());
    // More or fewer rows than the header declares.
    assert!(Png::parse(&file(&[ihdr(1, 3, 8, 2, 0), idat.clone(), iend.clone()])).is_none());
    assert!(Png::parse(&file(&[ihdr(1, 1, 8, 2, 0), idat.clone(), iend.clone()])).is_none());
    assert!(Png::parse(&file(&[ihdr(2, 2, 8, 2, 0), idat.clone(), iend.clone()])).is_none());
    // A filter that does not exist.
    let odd = chunk(b"IDAT", &zlib(&[0, 10, 20, 30, 5, 40, 50, 60]));
    assert!(Png::parse(&file(&[ihdr(1, 2, 8, 2, 0), odd, iend.clone()])).is_none());
    // Data that is no zlib stream.
    let noise = chunk(b"IDAT", &[1, 2, 3, 4, 5, 6, 7, 8]);
    assert!(Png::parse(&file(&[ihdr(1, 2, 8, 2, 0), noise, iend.clone()])).is_none());
    // A pixel density in a unit that does not exist.
    let density = chunk(b"pHYs", &[0, 0, 0, 1, 0, 0, 0, 1, 2]);
    assert!(
        Png::parse(&file(&[ihdr(1, 2, 8, 2, 0), density, idat.clone(), iend.clone()])).is_none()
    );
}

#[test]
fn parse_rejects_a_chunk_that_runs_past_the_end() {
    let good = one_by_two();
    assert!(Png::parse(&good[..good.len() - 1]).is_some());
    assert!(Png::parse(&good[..good.len() - 12]).is_some());
    assert!(Png::parse(&good[..good.len() - 13]).is_none());
    let mut long = good.clone();
    long[8..12].copy_from_slice(&1000u32.to_be_bytes());
    assert!(Png::parse(&long).is_none());
    assert!(Png::parse_chunks(&[0, 0, 0, 5, b'a', b'b', b'c', b'd', 1, 2, 3, 4]).is_none());
    assert_eq!(Png::parse_chunks(&[0, 0, 0, 5, b'a', b'b', b'c']).unwrap().len(), 0);
}

#[test]
fn parse_keeps_chunks_that_it_does_not_know() {
    let data = file(&[
        ihdr(1, 2, 8, 2, 0),
        chunk(b"zzZz", &[1, 2, 3]),
        chunk(b"pHYs", &[0, 0, 0x0B, 0x13, 0, 0, 0x0B, 0x12, 1]),
        chunk(b"tIME", &[0x07, 0xE8, 2, 29, 23, 59, 58]),
        chunk(b"iCCP", b"sRGB\0\x00profile"),
        chunk(b"IDAT", &zlib(&[0, 10, 20, 30, 0, 40, 50, 60])),
        chunk(b"IEND", &[]),
    ]);
    let png = Png::parse(&data).unwrap();
    assert_eq!(png.chunks.len(), 7);
    match &png.chunks[1] {
        PngChunk::Unknown { length, signature, data, .. } => {
            assert_eq!(*length, 3);
            assert_eq!(signature, b"zzZz");
            assert_eq!(data, &vec![1, 2, 3]);
        }
        _ => panic!("a chunk with a tag of no known type is kept as it is"),
    }
    match &png.chunks[2] {
        PngChunk::PHYS(p) => {
            assert_eq!(p.pixel_per_unit_x, 2835);
            assert_eq!(p.pixel_per_unit_y, 2834);
            assert_eq!(p.unit, PngUnit::Meter);
        }
        _ => panic!("a pixel density"),
    }
    match &png.chunks[3] {
        PngChunk::TIME(t) => {
            assert_eq!((t.year, t.month, t.day, t.hour, t.minute, t.second), (2024, 2, 29, 23, 59, 58));
        }
        _ => panic!("a time"),
    }
    match &png.chunks[4] {
        PngChunk::ICCP(c) => {
            assert_eq!(c.keyword, b"sRGB".to_vec());
            assert_eq!(c.compression_method, 0);
            assert_eq!(c.compression_profile, b"profile".to_vec());
        }
        _ => panic!("a colour profile"),
    }
    assert_eq!(png.get_size() as usize, data.len());
    // Written again, every chunk but the picture data stands as it stood.
    let written = png.to_bytes();
    let head = data.len() - chunk(b"IDAT", &zlib(&[0, 10, 20, 30, 0, 40, 50, 60])).len() - 12;
    assert_eq!(written[..head], data[..head]);
    assert_eq!(written[written.len() - 12..], data[data.len() - 12..]);
}

#[test]
fn parse_keeps_text_as_it_is() {
    let text = chunk(b"tEXt", b"Title\0hello");
    let data = file(&[
        ihdr(1, 2, 8, 2, 0),
        text,
        chunk(b"IDAT", &zlib(&[0, 10, 20, 30, 0, 40, 50, 60])),
        chunk(b"IEND", &[]),
    ]);
    let png = Png::parse(&data).unwrap();
    match png.get_chunk(b"tEXt") {
        Some(PngChunk::Unknown { length, signature, data, .. }) => {
            assert_eq!(*length, 11);
            assert_eq!(signature, b"tEXt");
            assert_eq!(data, &b"Title\0hello".to_vec());
        }
        _ => panic!("a text chunk is kept under the type of no name"),
    }
    assert_eq!(png.to_bytes(), data);
}

#[test]
fn chunk_readers() {
    assert!(Png::parse_ihdr(12, b"IHDR", &[0; 12], 0).is_none());
    assert!(Png::parse_ihdr(13, b"IHDR", &[0, 0, 0, 1, 0, 0, 0, 1, 8, 2, 0, 0, 2], 0).is_none());
    let h = Png::parse_ihdr(13, b"IHDR", &[0, 0, 1, 0, 0, 0, 0, 2, 8, 7, 0, 0, 1], 9).unwrap();
    assert_eq!((h.width, h.height, h.crc), (256, 2, 9));
    assert_eq!(h.color_type, PngColorType::Unknown);
    assert_eq!(h.interlacing, PngInterlacing::Adam7);
    assert_eq!(Png::parse_ihdr(13, b"IHDR", &[0; 13], 0).unwrap().color_type, PngColorType::Grayscale);
    assert!(Png::parse_iccp(3, b"iCCP", b"abc", 0).is_none());
    assert!(Png::parse_iccp(4, b"iCCP", b"abc\0", 0).is_none());
    let c = Png::parse_iccp(5, b"iCCP", b"abc\0\x07", 0).unwrap();
    assert_eq!(c.keyword, b"abc".to_vec());
    assert_eq!(c.compression_method, 7);
    assert!(c.compression_profile.is_empty());
    let c = Png::parse_iccp(3, b"iCCP", b"\0\x01\x02", 0).unwrap();
    assert!(c.keyword.is_empty());
    assert_eq!(c.compression_profile, vec![2]);
    assert!(Png::parse_time(6, b"tIME", &[0; 6], 0).is_none());
    assert!(Png::parse_phys(8, b"pHYs", &[0; 8], 0).is_none());
    assert_eq!(Png::parse_phys(9, b"pHYs", &[0; 9], 0).unwrap().unit, PngUnit::Unknown);
    assert_eq!(Png::parse_idat(2, b"IDAT", &[5, 6], 1).unwrap().data, vec![5, 6]);
    assert_eq!(Png::parse_iend(0, b"IEND", 77).unwrap().crc, 77);
    assert!(Png::parse_text(11, b"tEXt", b"Title\0hello", 0).is_none());
}

#[test]
fn chunk_lookup() {
    let data = file(&[
        ihdr(1, 2, 8, 2, 0),
        chunk(b"abcd", &[1]),
        chunk(b"IDAT", &zlib(&[0, 10, 20, 30, 0, 40, 50, 60])),
        chunk(b"abcd", &[2]),
        chunk(b"IEND", &[]),
    ]);
    let png = Png::parse(&data).unwrap();
    assert!(matches!(png.get_chunk(b"IHDR"), Some(PngChunk::IHDR(_))));
    assert!(matches!(png.get_chunk(b"IDAT"), Some(PngChunk::IDAT(_))));
    assert!(matches!(png.get_chunk(b"IEND"), Some(PngChunk::IEND(_))));
    match png.get_chunk(b"abcd") {
        Some(PngChunk::Unknown { data, .. }) => assert_eq!(data, &vec![1]),
        _ => panic!("the first chunk with the tag"),
    }
    assert!(png.get_chunk(b"pHYs").is_none());
    assert!(png.get_chunk(b"IHD").is_none());
    assert_eq!(Png::get_idhr(&png.chunks).unwrap().height, 2);
    assert_eq!(Png::get_idata_chunks(&png.chunks).len(), 1);
}

#[test]
fn paeth_prefers_left_then_above() {
    assert_eq!(Png::paeth_predictor(0, 0, 0), 0);
    assert_eq!(Png::paeth_predictor(10, 10, 10), 10);
    assert_eq!(Png::paeth_predictor(10, 20, 5), 20);
    assert_eq!(Png::paeth_predictor(100, 50, 75), 75);
    assert_eq!(Png::paeth_predictor(0, 10, 0), 10);
    assert_eq!(Png::paeth_predictor(11, 40, 10), 40);
    assert_eq!(Png::paeth_predictor(255, 0, 255), 0);
    assert_eq!(Png::paeth_predictor(0, 255, 255), 0);
    assert_eq!(Png::paeth_predictor(50, 60, 60), 50);
    assert_eq!(Png::paeth_predictor(60, 50, 60), 50);
}

#[test]
fn undo_each_filter() {
    let rgb = PngColorType::RGB;
    assert_eq!(
        Png::undo_png_filtering(&[0, 10, 20, 30, 0, 40, 50, 60], 1, rgb),
        Some(vec![10, 20, 30, 40, 50, 60])
    );
    assert_eq!(
        Png::undo_png_filtering(&[1, 10, 20, 30, 5, 5, 5], 2, rgb),
        Some(vec![10, 20, 30, 15, 25, 35])
    );
    assert_eq!(
        Png::undo_png_filtering(&[1, 200, 0, 0, 100, 0, 0], 2, rgb),
        Some(vec![200, 0, 0, 44, 0, 0])
    );
    assert_eq!(
        Png::undo_png_filtering(&[0, 10, 20, 30, 15, 25, 35, 2, 1, 1, 1, 2, 2, 2], 2, rgb),
        Some(vec![10, 20, 30, 15, 25, 35, 11, 21, 31, 17, 27, 37])
    );
    assert_eq!(
        Png::undo_png_filtering(&[0, 10, 20, 30, 40, 50, 60, 3, 10, 10, 10, 10, 10, 10], 2, rgb),
        Some(vec![10, 20, 30, 40, 50, 60, 15, 20, 25, 37, 45, 52])
    );
    assert_eq!(
        Png::undo_png_filtering(&[0, 10, 20, 30, 40, 50, 60, 4, 1, 1, 1, 1, 1, 1], 2, rgb),
        Some(vec![10, 20, 30, 40, 50, 60, 11, 21, 31, 41, 51, 61])
    );
    // The first row has nothing above it.
    assert_eq!(Png::undo_png_filtering(&[2, 7, 8, 9], 1, rgb), Some(vec![7, 8, 9]));
    assert_eq!(Png::undo_png_filtering(&[3, 7, 8, 9, 10, 10, 10], 2, rgb), Some(vec![7, 8, 9, 13, 14, 14]));
    assert_eq!(Png::undo_png_filtering(&[4, 7, 8, 9, 1, 1, 1], 2, rgb), Some(vec![7, 8, 9, 8, 9, 10]));
}

#[test]
fn undo_for_grey_pixels() {
    assert_eq!(
        Png::undo_png_filtering(&[1, 1, 1, 1, 2, 1, 1, 1], 3, PngColorType::Grayscale),
        Some(vec![1, 2, 3, 2, 3, 4])
    );
    assert_eq!(Png::undo_png_filtering(&[0, 4, 2], 5, PngColorType::Unknown), Some(vec![]));
    assert!(Png::undo_png_filtering(&[0, 5], 5, PngColorType::Unknown).is_none());
}

#[test]
fn undo_rejects_bad_streams() {
    let rgb = PngColorType::RGB;
    assert_eq!(Png::undo_png_filtering(&[], 1, rgb), Some(vec![]));
    assert_eq!(Png::undo_png_filtering(&[], usize::MAX, rgb), Some(vec![]));
    assert!(Png::undo_png_filtering(&[0], usize::MAX, rgb).is_none());
    assert!(Png::undo_png_filtering(&[0, 1, 2], 1, rgb).is_none());
    assert!(Png::undo_png_filtering(&[0, 1, 2, 3, 0], 1, rgb).is_none());
    assert!(Png::undo_png_filtering(&[5, 1, 2, 3], 1, rgb).is_none());
    assert!(Png::undo_png_filtering(&[0, 1, 2, 3, 255, 1, 2, 3], 1, rgb).is_none());
}

#[test]
fn filtering_and_its_inverse() {
    let rgb = PngColorType::RGB;
    let raw: Vec<u8> = (0..60u32).map(|i| (i * 37 % 251) as u8).collect();
    let filters = [0u8, 1, 2, 3, 4];
    let lines = Png::apply_png_filtering(&raw, 4, rgb, &filters);
    assert_eq!(lines.len(), 65);
    assert_eq!(Png::row_filters(&lines, 13), filters.to_vec());
    assert_eq!(Png::undo_png_filtering(&lines, 4, rgb), Some(raw.clone()));
    let stream: Vec<u8> = (0..65u32).map(|i| if i % 13 == 0 { (i / 13) as u8 % 5 } else { (i * 91 % 256) as u8 }).collect();
    let rows = Png::undo_png_filtering(&stream, 4, rgb).unwrap();
    assert_eq!(Png::apply_png_filtering(&rows, 4, rgb, &Png::row_filters(&stream, 13)), stream);
}

#[test]
fn filter_each_row() {
    let rgb = PngColorType::RGB;
    assert_eq!(
        Png::apply_png_filtering(&[10, 20, 30, 15, 25, 35], 2, rgb, &[1]),
        vec![1, 10, 20, 30, 5, 5, 5]
    );
    assert_eq!(
        Png::apply_png_filtering(&[10, 20, 30, 11, 21, 31], 1, rgb, &[0, 2]),
        vec![0, 10, 20, 30, 2, 1, 1, 1]
    );
    assert_eq!(Png::apply_png_filtering(&[1, 0, 0, 0, 0, 0], 2, rgb, &[1]), vec![1, 1, 0, 0, 255, 0, 0]);
    assert_eq!(Png::apply_png_filtering(&[], 0, rgb, &[3, 4]), vec![3, 4]);
    assert_eq!(Png::apply_png_filtering(&[], 7, rgb, &[]), Vec::<u8>::new());
}

#[test]
fn write_one_chunk() {
    let mut out = vec![9];
    write_frame(&mut out, b"abcd", &[1, 2, 3], 0x01020304);
    assert_eq!(out, vec![9, 0, 0, 0, 3, b'a', b'b', b'c', b'd', 1, 2, 3, 1, 2, 3, 4]);
}

#[test]
fn write_with_given_picture_data() {
    let png = Png::parse(&one_by_two()).unwrap();
    let written = png.encode_with(&[1, 2, 3]);
    let expected = file(&[ihdr(1, 2, 8, 2, 0), chunk(b"IDAT", &[1, 2, 3]), chunk(b"IEND", &[])]);
    assert_eq!(written, expected);
    assert_eq!(written[written.len() - 4..], [0xAE, 0x42, 0x60, 0x82]);
    assert_eq!(png.filtered_lines(), vec![0, 10, 20, 30, 0, 40, 50, 60]);
}

#[test]
fn write_puts_fresh_data_where_the_first_data_stood() {
    let stream = zlib(&[0, 10, 20, 30, 0, 40, 50, 60]);
    let (first, second) = stream.split_at(3);
    let data = file(&[
        ihdr(1, 2, 8, 2, 0),
        chunk(b"IDAT", first),
        chunk(b"abcd", &[7]),
        chunk(b"IDAT", second),
        chunk(b"IEND", &[]),
    ]);
    let png = Png::parse(&data).unwrap();
    let expected = file(&[
        ihdr(1, 2, 8, 2, 0),
        chunk(b"IDAT", &[4, 5]),
        chunk(b"abcd", &[7]),
        chunk(b"IEND", &[]),
    ]);
    assert_eq!(png.encode_with(&[4, 5]), expected);
}

#[test]
fn png_round_trip_after_an_edit() {
    let lines = [1, 10, 20, 30, 5, 5, 5, 4, 1, 1, 1, 2, 2, 2];
    let data = file(&[ihdr(2, 2, 8, 2, 0), chunk(b"IDAT", &zlib(&lines)), chunk(b"IEND", &[])]);
    let mut png = Png::parse(&data).unwrap();
    assert_eq!(png.to_bytes(), data);
    assert_eq!(png.encode(), Some(data.clone()));
    let p = Pixel { r: 250, g: 0, b: 125 };
    assert_eq!(png.set_pixel(1, 1, p), Some(()));
    assert!(png.set_pixel(2, 0, p).is_none());
    assert!(png.set_pixel(0, 2, p).is_none());
    let written = png.to_bytes();
    assert_ne!(written, data);
    let again = Png::parse(&written).unwrap();
    assert_eq!(again.pixels, png.pixels);
    assert_eq!(again.filters, vec![1, 4]);
    assert_eq!(again.get_pixel(1, 1), Some(&p));
    assert_eq!(again.get_pixel(1, 0), Some(&Pixel { r: 15, g: 25, b: 35 }));
}

#[test]
fn a_picture_without_pixels() {
    let data = file(&[ihdr(0, 0, 8, 2, 0), chunk(b"IDAT", &zlib(&[])), chunk(b"IEND", &[])]);
    let png = Png::parse(&data).unwrap();
    assert_eq!(png.get_width(), 0);
    assert!(png.get_pixel(0, 0).is_none());
    let rows = file(&[ihdr(0, 3, 8, 2, 0), chunk(b"IDAT", &zlib(&[0, 1, 2])), chunk(b"IEND", &[])]);
    let png = Png::parse(&rows).unwrap();
    assert_eq!(png.get_height(), 3);
    assert_eq!(png.filters, vec![0, 1, 2]);
    assert!(png.get_pixel(0, 0).is_none());
    assert_eq!(Png::parse(&png.to_bytes()).unwrap().filters, vec![0, 1, 2]);
}

#[test]
fn the_magic_is_kept_as_it_is() {
    let mut data = one_by_two();
    data[1] = b'X';
    data[7] = 0;
    let png = Png::parse(&data).unwrap();
    assert_eq!(png.get_signature(), "XNG");
    assert_eq!(png.to_bytes()[..8], data[..8]);
}

#[test]
fn png_metadata_names_the_header_fields() {
    let png = Png::parse(&one_by_two()).unwrap();
    let text = png.get_metadata();
    assert!(text.contains("PngHeader"));
    assert!(text.contains("PngIhdr"));
    assert!(text.contains("height: 2"));
    let crc = crc32fast::hash(&ihdr(1, 2, 8, 2, 0)[4..21]);
    assert_eq!(
        text,
        format!(
            "PngHeader {{ high_byte: 137, signature: [80, 78, 71], dos_line_end: [13, 10], \
             dos_eof: 26, unix_line_end: 10 }}\n\
             PngIhdr {{ length: 13, signature: [73, 72, 68, 82], width: 1, height: 2, \
             bit_depth: 8, color_type: RGB, compression_method: 0, filter_method: 0, \
             interlacing: Off, crc: {} }}",
            crc
        )
    );
    assert_eq!(png.get_size(), 8 + 25 + 12 + zlib(&[0, 10, 20, 30, 0, 40, 50, 60]).len() as u32 + 12);
}
