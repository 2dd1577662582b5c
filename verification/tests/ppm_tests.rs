use rusty_imager::formats::decimal::{push_decimal, read_decimal};
use rusty_imager::formats::ppm::Ppm;
use rusty_imager::formats::ImageFormat;
use rusty_imager::models::{Colors, Pixel};

/// The signature of the binary, full-colour form.
const RAW: [u8; 2] = [b'P', b'6'];

/// The signature of the binary bitmap form.
const BITS: [u8; 2] = [b'P', b'4'];

/// A file: the signature, then `rest`.
fn file(signature: &[u8], rest: &[u8]) -> Vec<u8> {
    let mut data = signature.to_vec();
    data.extend_from_slice(rest);
    data
}

fn sample() -> Vec<u8> {
    let mut data = file(&RAW, b"\n# made by hand\n2 1\n255\n");
    data.extend_from_slice(&[1, 2, 3, 4, 5, 6]);
    data
}

#[test]
fn ppm_parse_sample() {
    let ppm = Ppm::parse(&sample()).unwrap();
    assert_eq!(ppm.signature, RAW);
    assert_eq!(ppm.width, 2);
    assert_eq!(ppm.height, 1);
    assert_eq!(ppm.max_color, Some(255));
    assert_eq!(ppm.get_width(), 2);
    assert_eq!(ppm.get_height(), 1);
    assert_eq!(ppm.get_size(), 2);
    assert_eq!(ppm.get_signature().as_bytes(), RAW);
    assert_eq!(ppm.get_pixel(0, 0), Some(&Pixel { r: 1, g: 2, b: 3 }));
    assert_eq!(ppm.get_pixel(1, 0), Some(&Pixel { r: 4, g: 5, b: 6 }));
    assert!(ppm.get_pixel(2, 0).is_none());
    assert!(ppm.get_pixel(0, 1).is_none());
}

#[test]
fn ppm_pixels_may_hold_line_feeds() {
    let mut data = file(&RAW, b"\n\n2 2\n255\n");
    data.extend_from_slice(&[10, 10, 10, 1, 10, 3, 10, 5, 6, 7, 8, 10]);
    let ppm = Ppm::parse(&data).unwrap();
    assert_eq!(ppm.get_pixel(0, 0), Some(&Pixel { r: 10, g: 10, b: 10 }));
    assert_eq!(ppm.get_pixel(1, 0), Some(&Pixel { r: 1, g: 10, b: 3 }));
    assert_eq!(ppm.get_pixel(0, 1), Some(&Pixel { r: 10, g: 5, b: 6 }));
    assert_eq!(ppm.get_pixel(1, 1), Some(&Pixel { r: 7, g: 8, b: 10 }));
}

#[test]
fn ppm_parse_passes_over_what_follows_the_sizes() {
    let mut data = file(&RAW, b"\nx\n+1 02 and more\n+7\n");
    data.extend_from_slice(&[1, 2, 3, 4, 5, 6, 7, 8]);
    let ppm = Ppm::parse(&data).unwrap();
    assert_eq!((ppm.width, ppm.height, ppm.max_color), (1, 2, Some(7)));
    assert_eq!(ppm.pixels.len(), 2);
    assert_eq!(ppm.get_pixel(0, 1), Some(&Pixel { r: 4, g: 5, b: 6 }));
}

#[test]
fn ppm_parse_rejects_what_it_does_not_support() {
    assert!(Ppm::parse(b"").is_none());
    assert!(Ppm::parse(&file(&RAW, b"")).is_none());
    assert!(Ppm::parse(&file(&RAW, b"\n")).is_none());
    assert!(Ppm::parse(&file(&RAW, b"\n\n1 1")).is_none());
    assert!(Ppm::parse(&file(&RAW, b"\n\n1 1\n")).is_none());
    assert!(Ppm::parse(&file(&RAW, b"\n\n1 1\n255")).is_none());
    assert!(Ppm::parse(&file(&RAW, b"\n\n1 1\n255\n12")).is_none());
    assert!(Ppm::parse(&file(&RAW, b"\n\n1 1\n255\n123")).is_some());
    assert!(Ppm::parse(&file(&RAW, b"\n\n0 9\n255")).is_some());
    assert!(Ppm::parse(&file(&[b'P', b'6', b'6'], b"\n\n1 1\n255\n123")).is_none());
    assert!(Ppm::parse(b"P\n\n1 1\n255\n123").is_none());
    assert!(Ppm::parse(b"P\x03\n\n1 1\n255\n123").is_none());
    assert!(Ppm::parse(b"P\x04\n\n1 1\n255\n123").is_some());
    assert!(Ppm::parse(&file(&RAW, b"\n\n11\n255\n123")).is_none());
    assert!(Ppm::parse(&file(&RAW, b"\n\n1  1\n255\n123")).is_none());
    assert!(Ppm::parse(&file(&RAW, b"\n\n 1 1\n255\n123")).is_none());
    assert!(Ppm::parse(&file(&RAW, b"\n\n1 -1\n255\n123")).is_none());
    assert!(Ppm::parse(&file(&RAW, b"\n\n1 1x\n255\n123")).is_none());
    assert!(Ppm::parse(&file(&RAW, b"\n\n4294967296 0\n255\n")).is_none());
    assert!(Ppm::parse(&file(&RAW, b"\n\n4294967295 0\n255\n")).is_some());
    assert!(Ppm::parse(&file(&RAW, b"\n\n1 1\n256\n123")).is_none());
    assert!(Ppm::parse(&file(&RAW, b"\n\n1 1\n\n123")).is_none());
    assert!(Ppm::parse(&file(&RAW, b"\n\n1 1\n25 5\n123")).is_none());
    assert!(Ppm::parse(&file(&RAW, b"\n\n4294967295 4294967295\n255\n123")).is_none());
}

#[test]
fn ppm_write_sample() {
    let ppm = Ppm::parse(&sample()).unwrap();
    let mut expected = file(&RAW, b"\n2 1\n255\n");
    expected.extend_from_slice(&[1, 2, 3, 4, 5, 6]);
    assert_eq!(ppm.to_bytes(), expected);
}

#[test]
fn ppm_write_bitmap() {
    let empty = Ppm::default();
    assert_eq!(empty.signature, [0, 0]);
    assert_eq!(empty.max_color, None);
    assert_eq!(empty.to_bytes(), vec![0, 0, b'\n', b'0', b' ', b'0', b'\n']);
    let bitmap = Ppm {
        signature: BITS,
        width: 3,
        height: 1,
        max_color: None,
        pixels: vec![Colors::white(), Colors::black(), Pixel { r: 255, g: 255, b: 254 }],
    };
    let mut expected = file(&BITS, b"\n3 1\n");
    expected.extend_from_slice(&[1, 0, 0]);
    assert_eq!(bitmap.to_bytes(), expected);
}

#[test]
fn ppm_set_pixel_keeps_to_the_largest_value() {
    let mut data = file(&RAW, b"\n\n2 1\n100\n");
    data.extend_from_slice(&[1, 2, 3, 4, 5, 6]);
    let mut ppm = Ppm::parse(&data).unwrap();
    assert!(ppm.set_pixel(0, 0, Pixel { r: 101, g: 0, b: 0 }).is_none());
    assert!(ppm.set_pixel(0, 0, Pixel { r: 0, g: 101, b: 0 }).is_none());
    assert!(ppm.set_pixel(0, 0, Pixel { r: 0, g: 0, b: 255 }).is_none());
    assert_eq!(ppm.get_pixel(0, 0), Some(&Pixel { r: 1, g: 2, b: 3 }));
    assert_eq!(ppm.set_pixel(0, 0, Pixel { r: 100, g: 100, b: 100 }), Some(()));
    assert_eq!(ppm.get_pixel(0, 0), Some(&Pixel { r: 100, g: 100, b: 100 }));
    assert!(ppm.set_pixel(2, 0, Pixel { r: 0, g: 0, b: 0 }).is_none());
    assert!(ppm.set_pixel(0, 1, Pixel { r: 0, g: 0, b: 0 }).is_none());
    let mut bitmap = Ppm {
        signature: BITS,
        width: 1,
        height: 1,
        max_color: None,
        pixels: vec![Colors::black()],
    };
    assert_eq!(bitmap.set_pixel(0, 0, Colors::white()), Some(()));
    assert_eq!(bitmap.to_bytes().last(), Some(&1));
}

#[test]
fn ppm_parts_of_the_file() {
    assert_eq!(
        Ppm::parse_binary(&[1, 2, 3, 4, 5, 6, 7, 8]),
        Some(vec![Pixel { r: 1, g: 2, b: 3 }, Pixel { r: 4, g: 5, b: 6 }])
    );
    assert_eq!(Ppm::parse_binary(&[1, 2]), Some(vec![]));
    assert!(Ppm::parse_ascii(b"0 1 1 0").is_none());
}

#[test]
fn ppm_metadata_names_the_fields() {
    let text = Ppm::parse(&sample()).unwrap().get_metadata();
    assert!(text.contains("Ppm"));
    assert!(text.contains("width: 2"));
    assert!(text.contains("max_color: Some(255)"));
    assert_eq!(text, "Ppm { signature: [80, 54], width: 2, height: 1, max_color: Some(255) }");
    assert_eq!(
        Ppm::default().get_metadata(),
        "Ppm { signature: [0, 0], width: 0, height: 0, max_color: None }"
    );
}

#[test]
fn decimal_reading() {
    assert_eq!(read_decimal(b"0", 255), Some(0));
    assert_eq!(read_decimal(b"255", 255), Some(255));
    assert_eq!(read_decimal(b"256", 255), None);
    assert_eq!(read_decimal(b"000255", 255), Some(255));
    assert_eq!(read_decimal(b"+12", 255), Some(12));
    assert_eq!(read_decimal(b"+", 255), None);
    assert_eq!(read_decimal(b"++1", 255), None);
    assert_eq!(read_decimal(b"", 255), None);
    assert_eq!(read_decimal(b"-1", 255), None);
    assert_eq!(read_decimal(b"1 ", 255), None);
    assert_eq!(read_decimal(b"12a", u32::MAX), None);
    assert_eq!(read_decimal(b"4294967295", u32::MAX), Some(u32::MAX));
    assert_eq!(read_decimal(b"4294967296", u32::MAX), None);
    assert_eq!(read_decimal(b"99999999999999999999999999", u32::MAX), None);
}

#[test]
fn decimal_writing() {
    let mut out = vec![b'x'];
    push_decimal(&mut out, 0);
    push_decimal(&mut out, 7);
    push_decimal(&mut out, 10);
    push_decimal(&mut out, 4294967295);
    assert_eq!(out, b"x07104294967295".to_vec());
    for n in [0u32, 1, 9, 10, 99, 100, 12345, 1000000, u32::MAX] {
        let mut digits = Vec::new();
        push_decimal(&mut digits, n);
        assert_eq!(read_decimal(&digits, u32::MAX), Some(n));
    }
}

#[test]
fn ppm_keeps_the_triples_behind_the_picture() {
    let mut data = file(&RAW, b"\n\n1 1\n255\n");
    data.extend_from_slice(&[1, 2, 3, 4, 5, 6, 7, 8, 9, 10]);
    let mut ppm = Ppm::parse(&data).unwrap();
    assert_eq!(ppm.pixels.len(), 3);
    assert_eq!(ppm.get_size(), 3);
    assert_eq!(ppm.get_pixel(0, 0), Some(&Pixel { r: 1, g: 2, b: 3 }));
    assert!(ppm.get_pixel(1, 0).is_none());
    assert!(ppm.get_pixel(0, 1).is_none());
    assert!(ppm.set_pixel(1, 0, Colors::black()).is_none());
    assert_eq!(ppm.set_pixel(0, 0, Colors::black()), Some(()));
    let mut expected = file(&RAW, b"\n1 1\n255\n");
    expected.extend_from_slice(&[0, 0, 0, 4, 5, 6, 7, 8, 9]);
    assert_eq!(ppm.to_bytes(), expected);
}
