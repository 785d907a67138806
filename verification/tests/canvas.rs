// Canvas storage and plain-text pixmap export.

use tracer::canvas::Canvas;
use tracer::tuple::Color;

#[test]
fn canvas() {
    let mut canvas = Canvas::new(10, 20);
    let red = Color::new(10_000, 0, 0);
    canvas.write_pixel(2, 3, red);
    assert_eq!(canvas.pixel_at(2, 3), red);
}

#[test]
fn canvas_to_ppm() {
    let mut canvas = Canvas::new(5, 3);
    let c1 = Color::new(15_000, 0, 0);
    let c2 = Color::new(0, 5_000, 0);
    let c3 = Color::new(-5_000, 0, 10_000);
    canvas.write_pixel(0, 0, c1);
    canvas.write_pixel(2, 1, c2);
    canvas.write_pixel(4, 2, c3);
    let ppm = canvas.to_ppm();
    let expected = "P3 5 3 255\n\
                    255 0 0 0 0 0 0 0 0 0 0 0 0 0 0 \n\
                    0 0 0 0 0 0 0 128 0 0 0 0 0 0 0 \n\
                    0 0 0 0 0 0 0 0 0 0 0 0 0 0 255 ";
    assert_eq!(ppm, expected);
}

#[test]
fn new_canvas_is_black() {
    let canvas = Canvas::new(3, 2);
    let black = Color::new(0, 0, 0);
    for y in 0..2usize {
        for x in 0..3usize {
            assert_eq!(canvas.pixel_at(x, y), black);
        }
    }
}

#[test]
fn every_in_bounds_write_reads_back() {
    let mut canvas = Canvas::new(4, 4);
    for y in 0..4usize {
        for x in 0..4usize {
            let c = Color::new((x * 1_000) as i64, (y * 1_000) as i64, 7_000);
            canvas.write_pixel(x, y, c);
            assert_eq!(canvas.pixel_at(x, y), c);
        }
    }
    // Earlier writes are untouched by later ones at other coordinates.
    assert_eq!(canvas.pixel_at(0, 0), Color::new(0, 0, 7_000));
}

#[test]
fn channels_above_one_serialize_to_255() {
    let canvas = Canvas::new(1, 1);
    let (r, g, b) = canvas.tuple_to_color(Color::new(15_000, 10_000, 10_001));
    assert_eq!(r, 255);
    assert_eq!(g, 255);
    assert_eq!(b, 255);
}

#[test]
fn negative_channels_serialize_to_0() {
    let canvas = Canvas::new(1, 1);
    let (r, g, b) = canvas.tuple_to_color(Color::new(-5_000, -1, 0));
    assert_eq!(r, 0);
    assert_eq!(g, 0);
    assert_eq!(b, 0);
}

#[test]
fn half_channel_rounds_half_away_from_zero() {
    let canvas = Canvas::new(1, 1);
    // 0.5 * 255 = 127.5, which rounds away from zero to 128.
    let (_, g, _) = canvas.tuple_to_color(Color::new(0, 5_000, 0));
    assert_eq!(g, 128);
}

#[test]
fn smallest_canvas_serializes() {
    let canvas = Canvas::new(1, 1);
    assert_eq!(canvas.to_ppm(), "P3 1 1 255\n0 0 0 ");
}
