use blot::canvas::{
    bicubic_cell, bilinear_cell, sample_nearest, Canvas, HeapCanvas, ImageCanvas,
    ImageCanvasError, PixelDraw, RGBA8,
};

fn rgba(r: u8, g: u8, b: u8, a: u8) -> RGBA8 {
    RGBA8 { r, g, b, a }
}

/// A canvas whose pixel (x, y) is (x, y, x + 10 * y, 255).
fn numbered(w: u32, h: u32) -> HeapCanvas {
    let mut c = HeapCanvas::new(w, h);
    for y in 0..h {
        for x in 0..w {
            c.set_pixel(x, y, &rgba(x as u8, y as u8, (x + 10 * y) as u8, 255));
        }
    }
    c
}

#[test]
fn named_colours() {
    assert_eq!(RGBA8::black(), rgba(0, 0, 0, 255));
    assert_eq!(RGBA8::white(), rgba(255, 255, 255, 255));
}

#[test]
fn random_colour_is_opaque_without_alpha() {
    for _ in 0..32 {
        assert_eq!(RGBA8::random(false).a, 255);
    }
}

#[test]
fn new_heap_canvas_is_transparent_black() {
    let c = HeapCanvas::new(3, 2);
    assert_eq!(c.get_width(), 3);
    assert_eq!(c.get_height(), 2);
    assert_eq!(c.get_size(), 24);
    for y in 0..2 {
        for x in 0..3 {
            assert_eq!(c.get_pixel(x, y), rgba(0, 0, 0, 0));
        }
    }
}

#[test]
fn pixel_offsets_run_row_by_row() {
    let c = HeapCanvas::new(3, 2);
    assert_eq!(c.compute_index(0, 0), 0);
    assert_eq!(c.compute_index(2, 0), 8);
    assert_eq!(c.compute_index(2, 1), 20);
    assert_eq!(c.compute_safe_index(1, 1), 16);
}

#[test]
fn set_pixel_touches_one_pixel() {
    let mut c = HeapCanvas::new(3, 3);
    let col = rgba(1, 2, 3, 4);
    c.set_pixel(1, 2, &col);
    assert_eq!(c.get_pixel(1, 2), col);
    assert_eq!(&c.as_bytes()[28..32], &[1, 2, 3, 4]);
    for y in 0..3 {
        for x in 0..3 {
            if (x, y) != (1, 2) {
                assert_eq!(c.get_pixel(x, y), rgba(0, 0, 0, 0));
            }
        }
    }
}

#[test]
fn fill_paints_every_pixel() {
    let mut c = numbered(4, 3);
    let col = rgba(9, 8, 7, 6);
    c.fill(&col);
    for y in 0..3 {
        for x in 0..4 {
            assert_eq!(c.get_pixel(x, y), col);
        }
    }
    assert!(c.as_bytes().chunks(4).all(|p| p == [9, 8, 7, 6]));
}

#[test]
fn image_canvas_keeps_rgba_pixels() {
    let raw: Vec<u8> = vec![1, 2, 3, 4, 5, 6, 7, 8, 9, 10, 11, 12];
    let buf = image::RgbaImage::from_raw(3, 1, raw).unwrap();
    let c = ImageCanvas::new(image::DynamicImage::ImageRgba8(buf));
    assert_eq!(c.get_width(), 3);
    assert_eq!(c.get_height(), 1);
    assert_eq!(c.get_pixel(0, 0), rgba(1, 2, 3, 4));
    assert_eq!(c.get_pixel(2, 0), rgba(9, 10, 11, 12));
}

#[test]
fn image_canvas_converts_rgb_to_opaque_rgba() {
    let raw: Vec<u8> = vec![10, 20, 30, 40, 50, 60];
    let buf = image::RgbImage::from_raw(1, 2, raw).unwrap();
    let mut c = ImageCanvas::new(image::DynamicImage::ImageRgb8(buf));
    assert_eq!(c.get_width(), 1);
    assert_eq!(c.get_height(), 2);
    assert_eq!(c.get_pixel(0, 0), rgba(10, 20, 30, 255));
    assert_eq!(c.get_pixel(0, 1), rgba(40, 50, 60, 255));
    c.set_pixel(0, 1, &RGBA8::white());
    assert_eq!(c.get_pixel(0, 1), RGBA8::white());
    c.fill(&RGBA8::black());
    assert_eq!(c.get_pixel(0, 0), RGBA8::black());
}

#[test]
fn image_canvas_error_keeps_its_message() {
    let e = ImageCanvasError::new(String::from("No such file"));
    assert_eq!(e.message(), "No such file");
}

#[test]
fn nearest_reads_the_stored_pixel() {
    let c = numbered(8, 8);
    for y in 0..7 {
        for x in 0..7 {
            assert_eq!(sample_nearest(&c, x, y, false, false), c.get_pixel(x, y));
            assert_eq!(sample_nearest(&c, x, y, true, false), c.get_pixel(x + 1, y));
            assert_eq!(sample_nearest(&c, x, y, false, true), c.get_pixel(x, y + 1));
            assert_eq!(sample_nearest(&c, x, y, true, true), c.get_pixel(x + 1, y + 1));
        }
    }
}

#[test]
fn nearest_falls_back_to_black() {
    let c = numbered(8, 8);
    assert_eq!(sample_nearest(&c, 7, 0, false, false), RGBA8::black());
    assert_eq!(sample_nearest(&c, 0, 7, false, false), RGBA8::black());
    let tiny = numbered(1, 5);
    assert_eq!(sample_nearest(&tiny, 0, 0, false, false), RGBA8::black());
}

#[test]
fn bilinear_cell_reads_the_two_by_two_block() {
    let c = numbered(4, 4);
    let s = bilinear_cell(&c, 2, 1).unwrap();
    assert_eq!(s[0], c.get_pixel(2, 1));
    assert_eq!(s[1], c.get_pixel(3, 1));
    assert_eq!(s[2], c.get_pixel(2, 2));
    assert_eq!(s[3], c.get_pixel(3, 2));
    assert!(bilinear_cell(&c, 3, 0).is_none());
    assert!(bilinear_cell(&numbered(4, 1), 0, 0).is_none());
}

#[test]
fn bicubic_cell_clamps_at_the_far_edge() {
    // 0.999 of the way across an 8 by 8 texture lands in the block at (6, 6).
    let c = numbered(8, 8);
    let s = bicubic_cell(&c, 6, 6).unwrap();
    let cols = [5u32, 6, 7, 7];
    let rows = [5u32, 6, 7, 7];
    for i in 0..4 {
        for j in 0..4 {
            assert_eq!(s[4 * i + j], c.get_pixel(cols[i], rows[j]));
        }
    }
    assert_eq!(bicubic_cell(&c, 6, 6), Some(s));
}

#[test]
fn bicubic_cell_clamps_at_the_near_edge() {
    let c = numbered(8, 8);
    let s = bicubic_cell(&c, 0, 3).unwrap();
    let cols = [0u32, 0, 1, 2];
    let rows = [2u32, 3, 4, 5];
    for i in 0..4 {
        for j in 0..4 {
            assert_eq!(s[4 * i + j], c.get_pixel(cols[i], rows[j]));
        }
    }
    assert!(bicubic_cell(&c, 7, 7).is_none());
}

#[test]
fn image_canvas_from_rgba8_reads_the_leading_bytes() {
    let raw: Vec<u8> = (1..=20).collect();
    let c = ImageCanvas::from_rgba8(2, 2, raw);
    assert_eq!(c.get_width(), 2);
    assert_eq!(c.get_height(), 2);
    assert_eq!(c.get_pixel(0, 0), rgba(1, 2, 3, 4));
    assert_eq!(c.get_pixel(1, 0), rgba(5, 6, 7, 8));
    assert_eq!(c.get_pixel(0, 1), rgba(9, 10, 11, 12));
    assert_eq!(c.get_pixel(1, 1), rgba(13, 14, 15, 16));
}
