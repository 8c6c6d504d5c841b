use pixelflut::Color;
use pixelflut::Coordinate;
use pixelflut::Pixel;

fn pixel(x: u32, y: u32, c: Color) -> Pixel {
    Pixel { coordinate: Coordinate::new(x, y), color: c }
}

#[test]
fn opaque_pixel_encodes_six_hex_digits() {
    let p = pixel(10, 20, Color::rgba(0x12, 0x34, 0x56, 0xff));
    assert_eq!(p.encode(), b"PX 10 20 123456\n".to_vec());
}

#[test]
fn translucent_pixel_encodes_eight_hex_digits() {
    let p = pixel(10, 20, Color::rgba(0x12, 0x34, 0x56, 0x80));
    assert_eq!(p.encode(), b"PX 10 20 12345680\n".to_vec());
}

#[test]
fn transparent_pixel_encodes_nothing() {
    let p = pixel(10, 20, Color::rgba(0x12, 0x34, 0x56, 0x00));
    assert_eq!(p.encode(), Vec::<u8>::new());
}

#[test]
fn hex_digits_are_lowercase_and_padded() {
    let p = pixel(0, 0, Color::rgb(0xab, 0x05, 0xef));
    assert_eq!(p.encode(), b"PX 0 0 ab05ef\n".to_vec());
}

#[test]
fn coordinates_use_plain_decimal() {
    let p = pixel(1234, 0, Color::rgb(0, 0, 0));
    assert_eq!(p.encode(), b"PX 1234 0 000000\n".to_vec());
}

#[test]
fn translated_pixel_shifts_its_coordinates() {
    let p = pixel(3, 4, Color::rgb(1, 2, 3)).translated(Coordinate::new(100, 200));
    assert_eq!(p.coordinate.x, 103);
    assert_eq!(p.coordinate.y, 204);
    assert_eq!(p.encode(), b"PX 103 204 010203\n".to_vec());
}

#[test]
fn color_accessors_return_channels() {
    let c = Color::rgba(1, 2, 3, 4);
    assert_eq!(c.red(), 1);
    assert_eq!(c.green(), 2);
    assert_eq!(c.blue(), 3);
    assert_eq!(c.alpha(), 4);
}

#[test]
fn rgb_is_fully_opaque() {
    let c = Color::rgb(9, 8, 7);
    assert_eq!(c.alpha(), 0xff);
}

#[test]
fn null_color_is_transparent_black() {
    let c = Color::null();
    assert_eq!((c.red(), c.green(), c.blue(), c.alpha()), (0, 0, 0, 0));
}

#[test]
fn gray_repeats_the_level() {
    let c = Color::gray(0x42);
    assert_eq!((c.red(), c.green(), c.blue(), c.alpha()), (0x42, 0x42, 0x42, 0xff));
}

#[test]
fn gradient24_at_zero_is_opaque_black() {
    let bits = (0.0f64 * u32::MAX as f64).round() as u32;
    let c = Color::gradient24(bits);
    assert_eq!((c.red(), c.green(), c.blue(), c.alpha()), (0, 0, 0, 0xff));
}

#[test]
fn gradient24_at_one_is_opaque_white() {
    let bits = (1.0f64 * u32::MAX as f64).round() as u32;
    let c = Color::gradient24(bits);
    assert_eq!((c.red(), c.green(), c.blue(), c.alpha()), (0xff, 0xff, 0xff, 0xff));
}

#[test]
fn gradient24_takes_the_low_three_bytes() {
    let c = Color::gradient24(0x12345678);
    assert_eq!((c.red(), c.green(), c.blue(), c.alpha()), (0x34, 0x56, 0x78, 0xff));
}

#[test]
fn pixel_null_is_transparent_at_origin() {
    let p = Pixel::null();
    assert_eq!(p.coordinate.x, 0);
    assert_eq!(p.coordinate.y, 0);
    assert_eq!(p.color.alpha(), 0);
    assert!(!p.visible());
}
