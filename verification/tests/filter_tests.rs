use rusty_imager::filters::{
    clamp_coord, edge_energies, energy_at, largest, mode, repaint_from, snapshot, sobel_x,
    sobel_y, BoxBlur, Brightness, ColorInversion, Emboss, Grayscale, ImageFilter, OilPainting,
    Sharpen, Threshold,
};
use rusty_imager::formats::bmp::{Bmp, BmpHeader, BmpInfo};
use rusty_imager::formats::ppm::Ppm;
use rusty_imager::formats::ImageFormat;
use rusty_imager::models::{Colors, Pixel};

fn px(r: u8, g: u8, b: u8) -> Pixel {
    Pixel { r, g, b }
}

fn gray(v: u8) -> Pixel {
    px(v, v, v)
}

fn picture(width: u32, height: u32, pixels: Vec<Pixel>) -> Bmp {
    assert_eq!(pixels.len() as u32, width * height);
    Bmp {
        header: BmpHeader {
            signature: [0x42, 0x4D],
            file_size: 56 + 3 * width * height,
            reserved: 0,
            data_offset: 54,
        },
        info: BmpInfo {
            size: 40,
            width,
            height,
            planes: 1,
            bits_per_pixel: 24,
            compression: 0,
            image_size: 3 * width * height,
            h_res: 0,
            v_res: 0,
            colors: 0,
            important_colors: 0,
            padding: vec![],
        },
        colors: None,
        data: pixels,
    }
}

fn bounded(width: u32, height: u32, max: u8, pixels: Vec<Pixel>) -> Ppm {
    Ppm { signature: [b'P', b'6'], width, height, max_color: Some(max), pixels }
}

#[test]
fn grayscale_takes_the_mean() {
    let mut img = picture(2, 2, vec![px(10, 20, 33), px(255, 255, 255), px(0, 0, 1), px(1, 1, 0)]);
    Grayscale::new().apply(&mut img);
    assert_eq!(img.data, vec![gray(21), gray(255), gray(0), gray(0)]);
    let once = img.data.clone();
    Grayscale::new().apply(&mut img);
    assert_eq!(img.data, once);
}

#[test]
fn brightness_stops_at_the_top() {
    let mut img = picture(2, 1, vec![px(200, 100, 0), px(155, 156, 255)]);
    Brightness::new(100).apply(&mut img);
    assert_eq!(img.data, vec![px(255, 200, 100), px(255, 255, 255)]);
    Brightness::new(0).apply(&mut img);
    assert_eq!(img.data, vec![px(255, 200, 100), px(255, 255, 255)]);
}

#[test]
fn inversion_complements_every_pixel() {
    let start = vec![px(0, 100, 255), px(1, 2, 3)];
    let mut img = picture(1, 2, start.clone());
    ColorInversion::new().apply(&mut img);
    assert_eq!(img.data, vec![px(255, 155, 0), px(254, 253, 252)]);
    ColorInversion::new().apply(&mut img);
    assert_eq!(img.data, start);
}

#[test]
fn threshold_leaves_black_and_white() {
    let mut img = picture(
        4,
        1,
        vec![gray(128), gray(127), px(255, 0, 128), px(255, 1, 128)],
    );
    Threshold::new(127).apply(&mut img);
    assert_eq!(
        img.data,
        vec![Colors::white(), Colors::black(), Colors::black(), Colors::white()]
    );
    let mut all = picture(3, 1, vec![gray(0), gray(200), gray(255)]);
    Threshold::new(255).apply(&mut all);
    assert_eq!(all.data, vec![Colors::black(); 3]);
    Threshold::new(1000).apply(&mut all);
    assert_eq!(all.data, vec![Colors::black(); 3]);
}

#[test]
fn a_pixel_that_the_image_cannot_store_is_left() {
    let mut img = bounded(3, 1, 100, vec![gray(100), gray(10), px(100, 0, 50)]);
    Threshold::new(50).apply(&mut img);
    assert_eq!(img.pixels, vec![gray(100), Colors::black(), Colors::black()]);
    let mut img = bounded(2, 1, 100, vec![px(90, 50, 0), px(0, 0, 0)]);
    Brightness::new(20).apply(&mut img);
    assert_eq!(img.pixels, vec![px(90, 50, 0), gray(20)]);
    let mut img = bounded(2, 1, 200, vec![px(100, 60, 55), px(10, 60, 55)]);
    ColorInversion::new().apply(&mut img);
    assert_eq!(img.pixels, vec![px(155, 195, 200), px(10, 60, 55)]);
}

#[test]
fn a_window_has_a_centre() {
    assert!(BoxBlur::new(0).is_none());
    assert!(BoxBlur::new(2).is_none());
    assert!(BoxBlur::new(65536).is_none());
    assert!(BoxBlur::new(65537).is_none());
    assert!(BoxBlur::new(usize::MAX).is_none());
    assert!(BoxBlur::new(1).is_some());
    assert!(BoxBlur::new(65535).is_some());
    assert!(OilPainting::new(0).is_none());
    assert!(OilPainting::new(4).is_none());
    assert!(OilPainting::new(u32::MAX).is_none());
    assert!(OilPainting::new(1).is_some());
    assert!(OilPainting::new(65535).is_some());
}

#[test]
fn box_blur_of_one_changes_nothing() {
    let start = vec![px(1, 2, 3), px(4, 5, 6), px(7, 8, 9), px(10, 11, 12), px(13, 14, 15), px(16, 17, 18)];
    let mut img = picture(3, 2, start.clone());
    BoxBlur::new(1).unwrap().apply(&mut img);
    assert_eq!(img.data, start);
}

#[test]
fn box_blur_takes_the_mean_of_the_window() {
    let mut img = picture(3, 1, vec![gray(0), gray(90), gray(180)]);
    BoxBlur::new(3).unwrap().apply(&mut img);
    assert_eq!(img.data, vec![gray(30), gray(90), gray(150)]);
    let mut img = picture(2, 2, vec![px(0, 0, 0), px(9, 90, 0), px(18, 0, 0), px(27, 0, 255)]);
    BoxBlur::new(3).unwrap().apply(&mut img);
    // Around (0, 0) the window covers (0, 0) four times, (1, 0) and (0, 1)
    // twice each and (1, 1) once.
    assert_eq!(img.data[0], px(9, 20, 28));
    assert_eq!(img.data[3], px(18, 20, 113));
    let mut flat = picture(2, 3, vec![px(7, 8, 9); 6]);
    BoxBlur::new(5).unwrap().apply(&mut flat);
    assert_eq!(flat.data, vec![px(7, 8, 9); 6]);
}

#[test]
fn sharpen_weighs_the_centre_against_its_neighbours() {
    let mut img = picture(3, 1, vec![gray(10), gray(20), gray(30)]);
    Sharpen::new(9).apply(&mut img);
    assert_eq!(img.data, vec![gray(0), gray(20), gray(60)]);
    let mut flat = picture(2, 2, vec![px(7, 80, 255); 4]);
    Sharpen::new(9).apply(&mut flat);
    assert_eq!(flat.data, vec![px(7, 80, 255); 4]);
    Sharpen::new(8).apply(&mut flat);
    assert_eq!(flat.data, vec![px(0, 0, 0); 4]);
    let mut bright = picture(1, 1, vec![px(1, 0, 2)]);
    Sharpen::new(u32::MAX).apply(&mut bright);
    assert_eq!(bright.data, vec![px(255, 0, 255)]);
}

#[test]
fn emboss_lifts_a_flat_picture_to_middle_grey() {
    let mut flat = picture(3, 3, vec![px(200, 10, 90); 9]);
    Emboss::new().apply(&mut flat);
    assert_eq!(flat.data, vec![gray(128); 9]);
    let mut img = picture(2, 1, vec![px(0, 0, 0), px(30, 60, 90)]);
    Emboss::new().apply(&mut img);
    // Around (0, 0): left column 0, middle column 0, right column 30 with
    // weights 0, -1, -1: -60 for red, which gives 68, 8 and 0, and the
    // mean of those.
    assert_eq!(img.data[0], gray(25));
    // Around (1, 0): left column 0, middle column 30 with weights 1, 0, -1,
    // right column 30 with weights 0, -1, -1: the same sums.
    assert_eq!(img.data[1], gray(25));
    let mut column = picture(1, 2, vec![px(0, 0, 0), px(30, 60, 90)]);
    Emboss::new().apply(&mut column);
    // Around (0, 0) every column holds 0, 0, 30 from top to bottom, with
    // weights 0, -1, -1 at the bottom: -60 for red again.
    assert_eq!(column.data[0], gray(25));
    // Around (0, 1) every column holds 0, 30, 30: weights 1 + 0 - 1 in the
    // middle row and 0 - 1 - 1 in the bottom row.
    assert_eq!(column.data[1], gray(25));
}

#[test]
fn oil_painting_takes_the_most_frequent_pixel() {
    let a = px(1, 1, 1);
    let b = px(2, 2, 2);
    let c = px(3, 3, 3);
    let mut img = picture(3, 1, vec![a, b, b]);
    OilPainting::new(3).unwrap().apply(&mut img);
    assert_eq!(img.data, vec![a, b, b]);
    let mut tie = picture(3, 1, vec![c, b, a]);
    OilPainting::new(3).unwrap().apply(&mut tie);
    assert_eq!(tie.data, vec![c, c, a]);
    let mut one = picture(2, 2, vec![a, b, c, a]);
    OilPainting::new(1).unwrap().apply(&mut one);
    assert_eq!(one.data, vec![a, b, c, a]);
}

#[test]
fn mode_prefers_the_pixel_that_stands_first() {
    let a = px(0, 0, 1);
    let b = px(0, 1, 0);
    let c = px(1, 0, 0);
    assert_eq!(mode(&vec![a]), a);
    assert_eq!(mode(&vec![a, b, b]), b);
    assert_eq!(mode(&vec![a, b, b, a]), a);
    assert_eq!(mode(&vec![c, b, a, a, b]), b);
    assert_eq!(mode(&vec![c, b, a, a, b, c, c]), c);
    assert_eq!(mode(&vec![px(1, 0, 0), px(0, 1, 0), px(0, 0, 1)]), px(1, 0, 0));
}

#[test]
fn neighbours_outside_are_replaced_by_the_nearest_inside() {
    assert_eq!(clamp_coord(0, 0, 1, 5), 0);
    assert_eq!(clamp_coord(0, 1, 1, 5), 0);
    assert_eq!(clamp_coord(0, 2, 1, 5), 1);
    assert_eq!(clamp_coord(4, 2, 1, 5), 4);
    assert_eq!(clamp_coord(4, 0, 1, 5), 3);
    assert_eq!(clamp_coord(2, 0, 7, 5), 0);
    assert_eq!(clamp_coord(2, 14, 7, 5), 4);
    assert_eq!(clamp_coord(2, usize::MAX, 0, 5), 4);
    assert_eq!(clamp_coord(usize::MAX - 1, usize::MAX, 3, usize::MAX), usize::MAX - 1);
    let img = picture(2, 2, vec![gray(1), gray(2), gray(3), gray(4)]);
    let src = snapshot(&img);
    assert_eq!((src.width, src.height), (2, 2));
    assert_eq!(src.pixels, img.data);
    assert_eq!(src.at(1, 0), gray(2));
    assert_eq!(src.near(0, 0, 0, 0, 1), gray(1));
    assert_eq!(src.near(0, 0, 2, 0, 1), gray(2));
    assert_eq!(src.near(0, 0, 0, 2, 1), gray(3));
    assert_eq!(src.near(1, 1, 2, 2, 1), gray(4));
    assert_eq!(src.near(1, 1, 0, 0, 1), gray(1));
}

#[test]
fn sobel_gradients() {
    let mut pixels = Vec::new();
    for y in 0..3u8 {
        for x in 0..3u8 {
            pixels.push(px(10 * y + x, 0, 0));
        }
    }
    let img = picture(3, 3, pixels);
    let src = snapshot(&img);
    assert_eq!(sobel_x(&src, 1, 1), 80);
    assert_eq!(sobel_y(&src, 1, 1), 8);
    assert_eq!(energy_at(&src, 1, 1), 6464);
    assert_eq!(sobel_x(&src, 0, 0), 40);
    assert_eq!(sobel_y(&src, 0, 0), 4);
    let energies = edge_energies(&src);
    assert_eq!(energies.len(), 9);
    assert_eq!(energies[4], 6464);
    assert_eq!(energies[0], 1616);
    assert_eq!(largest(&energies), 6464);
    assert_eq!(largest(&vec![]), 0);
    assert_eq!(largest(&vec![3, 9, 2]), 9);
    let flat = snapshot(&picture(2, 2, vec![px(255, 3, 4); 4]));
    assert_eq!(edge_energies(&flat), vec![0; 4]);
    let step = snapshot(&picture(2, 1, vec![px(0, 0, 0), px(255, 0, 0)]));
    assert_eq!(sobel_y(&step, 0, 0), 1020);
    assert_eq!(sobel_y(&step, 1, 0), 1020);
    assert_eq!(sobel_x(&step, 0, 0), 0);
}

#[test]
fn repaint_writes_what_the_image_stores() {
    let mut img = bounded(2, 1, 100, vec![gray(1), gray(2)]);
    repaint_from(&mut img, &vec![gray(100), gray(101)]);
    assert_eq!(img.pixels, vec![gray(100), gray(2)]);
    let mut bmp = picture(2, 1, vec![gray(1), gray(2)]);
    repaint_from(&mut bmp, &vec![gray(100), gray(101)]);
    assert_eq!(bmp.data, vec![gray(100), gray(101)]);
}

#[test]
fn filters_leave_an_empty_picture_alone() {
    let mut img = picture(0, 0, vec![]);
    Grayscale::new().apply(&mut img);
    BoxBlur::new(3).unwrap().apply(&mut img);
    Sharpen::new(5).apply(&mut img);
    Emboss::new().apply(&mut img);
    OilPainting::new(3).unwrap().apply(&mut img);
    assert!(img.data.is_empty());
    let mut thin = picture(0, 4, vec![]);
    Threshold::new(1).apply(&mut thin);
    BoxBlur::new(3).unwrap().apply(&mut thin);
    assert!(thin.data.is_empty());
}
