use pixelflut::Coordinate;
use pixelflut::Dimension;
use pixelflut::Image;
use pixelflut::Style;

#[test]
fn coordinates_add_componentwise() {
    let a = Coordinate::new(3, 4);
    let b = Coordinate::new(10, 20);
    let c = a.add(b);
    assert_eq!(c.x, 13);
    assert_eq!(c.y, 24);
}

#[test]
fn null_coordinate_is_the_origin() {
    let c = Coordinate::null();
    assert_eq!((c.x, c.y), (0, 0));
}

#[test]
fn dimension_counts_its_pixels() {
    let d = Dimension { width: 640, height: 480 };
    assert_eq!(d.pixels(), 307_200);
}

#[test]
fn empty_dimension_has_no_pixels() {
    let d = Dimension { width: 0, height: 17 };
    assert_eq!(d.pixels(), 0);
}

#[test]
fn styles_are_distinct() {
    assert_ne!(Style::Mandelbrot, Style::Julia);
    assert_ne!(Style::Julia, Style::Image);
}

#[test]
fn image_settings_keep_their_path() {
    let image = Image { path: String::from("canvas.png") };
    assert_eq!(image.path, "canvas.png");
}
