use pixelflut::Color;
use pixelflut::Coordinate;
use pixelflut::Dimension;
use pixelflut::Frame;
use pixelflut::FramePainter;
use pixelflut::FrameSerializer;
use pixelflut::ResizeType;
use pixelflut::update_slabs;

fn solid(width: usize, height: usize, c: Color) -> Frame {
    Frame { width, height, data: vec![c; width * height] }
}

#[test]
fn painter_starts_with_no_streams_and_no_offset() {
    let painter = FramePainter::new(solid(2, 2, Color::rgb(1, 2, 3)));
    assert_eq!(painter.stream_count, 0);
    assert_eq!(painter.position.x, 0);
    assert_eq!(painter.position.y, 0);
}

#[test]
fn updates_carry_the_configuration_they_were_made_under() {
    let red = Color::rgb(0xff, 0, 0);
    let mut painter = FramePainter::new(solid(2, 2, red));
    painter.update_serializer(FrameSerializer::row());
    painter.update_position(Coordinate::new(100, 200));
    let u = painter.update_stream_count(1);
    assert_eq!(u.stream_count, 1);
    assert_eq!(u.position.x, 100);
    assert_eq!(u.position.y, 200);
    assert_eq!(u.frame.width, 2);
    assert_eq!(u.frame.height, 2);
}

#[test]
fn update_slabs_renders_the_update() {
    let red = Color::rgb(0xff, 0, 0);
    let mut painter = FramePainter::new(solid(2, 2, red));
    painter.update_serializer(FrameSerializer::row());
    painter.update_position(Coordinate::new(100, 200));
    let mut u = painter.update_stream_count(1);
    let slabs = update_slabs(&mut u);
    assert_eq!(slabs.len(), 1);
    let expected =
        b"PX 100 200 ff0000\nPX 101 200 ff0000\nPX 100 201 ff0000\nPX 101 201 ff0000\n".to_vec();
    assert_eq!(slabs[0], expected);
}

#[test]
fn update_dimensions_resizes_the_emitted_frame() {
    let red = Color::rgb(0xff, 0, 0);
    let mut painter = FramePainter::new(solid(2, 2, red));
    let u = painter.update_dimensions(Dimension { width: 4, height: 4 });
    assert_eq!(u.frame.width, 4);
    assert_eq!(u.frame.height, 4);
}

#[test]
fn update_resize_type_reshapes_without_touching_the_source() {
    let red = Color::rgb(0xff, 0, 0);
    let mut painter = FramePainter::new(solid(4, 2, red));
    painter.update_dimensions(Dimension { width: 2, height: 2 });
    let u = painter.update_resize_type(ResizeType::Crop);
    assert_eq!(u.frame.width, 2);
    assert_eq!(u.frame.height, 2);
    assert_eq!(painter.resizer.original_frame.width, 4);
}

#[test]
fn random_update_slabs_still_cover_every_cell() {
    let mut painter = FramePainter::new(Frame {
        width: 2,
        height: 2,
        data: vec![
            Color::rgb(1, 0, 0),
            Color::rgb(2, 0, 0),
            Color::rgb(3, 0, 0),
            Color::rgb(4, 0, 0),
        ],
    });
    painter.update_serializer(FrameSerializer::random());
    let mut u = painter.update_stream_count(2);
    let slabs = update_slabs(&mut u);
    assert_eq!(slabs.len(), 2);
    let mut joined: Vec<u8> = Vec::new();
    for slab in &slabs {
        joined.extend_from_slice(slab);
    }
    let mut lines: Vec<&[u8]> =
        joined.split(|&b| b == b'\n').filter(|line| !line.is_empty()).collect();
    lines.sort();
    let expected: Vec<&[u8]> = vec![
        b"PX 0 0 010000",
        b"PX 0 1 030000",
        b"PX 1 0 020000",
        b"PX 1 1 040000",
    ];
    assert_eq!(lines, expected);
}

#[test]
fn a_dropped_update_changes_nothing_later() {
    // The painter's own state does not depend on whether a message was
    // delivered: emitting twice yields the same configuration.
    let red = Color::rgb(0xff, 0, 0);
    let mut painter = FramePainter::new(solid(2, 2, red));
    painter.update_serializer(FrameSerializer::column());
    let first = painter.update_stream_count(3);
    let second = painter.update_stream_count(3);
    assert_eq!(first.stream_count, second.stream_count);
    assert_eq!(first.position.x, second.position.x);
}
