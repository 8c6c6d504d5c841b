use pixelflut::Color;
use pixelflut::Coordinate;
use pixelflut::Dimension;
use pixelflut::Field;
use pixelflut::Frame;
use pixelflut::Pixel;
use pixelflut::field_from_frame;

fn dim(width: usize, height: usize) -> Dimension {
    Dimension { width, height }
}

#[test]
fn new_field_is_transparent_everywhere() {
    let field = Field::new(dim(3, 2));
    for x in 0..3 {
        for y in 0..2 {
            let p = field.get(x, y);
            assert_eq!(p.color.alpha(), 0);
        }
    }
}

#[test]
fn set_then_get_returns_the_pixel() {
    let mut field = Field::new(dim(3, 2));
    let p = Pixel { coordinate: Coordinate::new(10, 20), color: Color::rgb(1, 2, 3) };
    field.set(2, 1, p);
    assert_eq!(field.get(2, 1), p);
    assert_eq!(field.get(0, 0).color.alpha(), 0);
}

#[test]
fn serialise_returns_every_cell_once() {
    let mut field = Field::new(dim(2, 2));
    for x in 0..2 {
        for y in 0..2 {
            let p = Pixel {
                coordinate: Coordinate::new(x as u32, y as u32),
                color: Color::rgb((10 * x + y) as u8, 0, 0),
            };
            field.set(x, y, p);
        }
    }
    let out = field.serialise();
    assert_eq!(out.len(), 4);
    let mut got: Vec<(usize, usize)> =
        out.iter().map(|p| (p.coordinate.x, p.coordinate.y)).collect();
    got.sort();
    assert_eq!(got, vec![(0, 0), (0, 1), (1, 0), (1, 1)]);
}

#[test]
fn coordinates_iterator_walks_row_major() {
    let field = Field::new(dim(3, 2));
    let mut it = field.coordinates_iterator();
    let mut seen = Vec::new();
    while let Some(xy) = it.next() {
        seen.push(xy);
    }
    assert_eq!(seen, vec![(0, 0), (1, 0), (2, 0), (0, 1), (1, 1), (2, 1)]);
    assert_eq!(it.next(), None);
}

#[test]
fn field_from_frame_applies_the_offset() {
    let red = Color::rgb(0xff, 0, 0);
    let frame = Frame { width: 2, height: 1, data: vec![red; 2] };
    let field = field_from_frame(&frame, Coordinate::new(5, 7));
    let p = field.get(1, 0);
    assert_eq!(p.coordinate.x, 6);
    assert_eq!(p.coordinate.y, 7);
    assert_eq!(p.color, red);
}
