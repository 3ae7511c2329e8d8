use whitted::display::canvas::Canvas;
use whitted::display::color::Color;
use whitted::display::ppm::{canvas_to_ppm, generate_footer, limit_width};
use whitted::display::resolution::Resolution;

fn fp(n: i64) -> i128 {
    (n as i128) * 1_000_000
}

fn fpf(x: f64) -> i128 {
    (x * 1e6).round() as i128
}

#[test]
fn colors_are_rgb_triples() {
    let c = Color::new(fpf(-0.5), fpf(0.4), fpf(1.7));
    assert_eq!(fpf(-0.5), c.red);
    assert_eq!(fpf(0.4), c.green);
    assert_eq!(fpf(1.7), c.blue);
}

#[test]
fn adding_colors() {
    let c1 = Color::new(fpf(0.9), fpf(0.6), fpf(0.75));
    let c2 = Color::new(fpf(0.7), fpf(0.1), fpf(0.25));
    assert_eq!(Color::new(fpf(1.6), fpf(0.7), fp(1)), c1.plus(c2));
}

#[test]
fn subtracting_colors() {
    let c1 = Color::new(fpf(0.9), fpf(0.6), fpf(0.75));
    let c2 = Color::new(fpf(0.7), fpf(0.1), fpf(0.25));
    let got = c1.minus(c2);
    assert!((got.red - fpf(0.2)).abs() <= 2);
    assert!((got.green - fpf(0.5)).abs() <= 2);
    assert!((got.blue - fpf(0.5)).abs() <= 2);
}

#[test]
fn multiplying_colors() {
    let c1 = Color::new(fp(1), fpf(0.2), fpf(0.4));
    let c2 = Color::new(fpf(0.9), fp(1), fpf(0.1));
    let got = c1.times(c2);
    assert!((got.red - fpf(0.9)).abs() <= 2);
    assert!((got.green - fpf(0.2)).abs() <= 2);
    assert!((got.blue - fpf(0.04)).abs() <= 2);
}

#[test]
fn converting_channels_to_display_bytes() {
    let c = Color::new(fpf(1.5), fpf(0.5), fpf(-0.5));
    assert_eq!((255, 128, 0), c.to255());
}

#[test]
fn creating_a_canvas_starts_black() {
    let canvas = Canvas::new(Resolution::new(10, 20));
    assert_eq!(10, canvas.width);
    assert_eq!(20, canvas.height);
    for x in 0..10 {
        for y in 0..20 {
            assert_eq!(Color::black(), canvas.pixel_at(x, y));
        }
    }
}

#[test]
fn writing_a_pixel_to_canvas() {
    let mut canvas = Canvas::new(Resolution::new(10, 20));
    let red = Color::red_color();
    canvas.write_pixel(2, 3, red);
    assert_eq!(red, canvas.pixel_at(2, 3));
    assert_eq!(Color::black(), canvas.pixel_at(3, 2));
}

#[test]
fn ppm_header_is_plain_p3() {
    let canvas = Canvas::new(Resolution::new(5, 3));
    let ppm = canvas_to_ppm(&canvas);
    let text = String::from_utf8(ppm).unwrap();
    assert!(text.starts_with("P3\n5 3\n255\n"));
}

#[test]
fn ppm_pixel_data_holds_scaled_channels() {
    let mut canvas = Canvas::new(Resolution::new(5, 3));
    canvas.write_pixel(0, 0, Color::new(fpf(1.5), fp(0), fp(0)));
    canvas.write_pixel(2, 1, Color::new(fp(0), fpf(0.5), fp(0)));
    canvas.write_pixel(4, 2, Color::new(fpf(-0.5), fp(0), fp(1)));
    let ppm = canvas_to_ppm(&canvas);
    let text = String::from_utf8(ppm).unwrap();
    let lines: Vec<&str> = text.lines().collect();
    assert_eq!("255 0 0 0 0 0 0 0 0 0 0 0 0 0 0", lines[3]);
    assert_eq!("0 0 0 0 0 0 0 128 0 0 0 0 0 0 0", lines[4]);
    assert_eq!("0 0 0 0 0 0 0 0 0 0 0 0 0 0 255", lines[5]);
}

#[test]
fn ppm_lines_never_run_past_seventy_characters() {
    let mut canvas = Canvas::new(Resolution::new(10, 2));
    for x in 0..10 {
        for y in 0..2 {
            canvas.write_pixel(x, y, Color::new(fp(1), fpf(0.8), fpf(0.6)));
        }
    }
    let ppm = canvas_to_ppm(&canvas);
    let text = String::from_utf8(ppm).unwrap();
    for line in text.lines() {
        assert!(line.len() <= 70);
    }
}

#[test]
fn ppm_ends_with_a_newline() {
    let canvas = Canvas::new(Resolution::new(5, 3));
    let ppm = canvas_to_ppm(&canvas);
    assert_eq!(Some(&b'\n'), ppm.last());
}

#[test]
fn limit_width_leaves_short_rows_alone() {
    let row: Vec<u8> = b"255 204 153".to_vec();
    assert_eq!(row.clone(), limit_width(row));
}

#[test]
fn limit_width_breaks_at_a_space() {
    let row: Vec<u8> =
        b"255 204 153 255 204 153 255 204 153 255 204 153 255 204 153 255 204 153".to_vec();
    let wrapped = limit_width(row);
    let text = String::from_utf8(wrapped).unwrap();
    for line in text.lines() {
        assert!(line.len() <= 70);
    }
    assert!(text.contains('\n'));
    let unbroken: String = text.replace('\n', "");
    assert_eq!(
        "255 204 153 255 204 153 255 204 153 255 204 153 255 204 153 255 204 153",
        unbroken,
    );
}

#[test]
fn generate_footer_is_one_newline() {
    assert_eq!(vec![b'\n'], generate_footer());
}
