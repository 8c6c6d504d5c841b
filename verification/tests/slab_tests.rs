use pixelflut::Color;
use pixelflut::Coordinate;
use pixelflut::Frame;
use pixelflut::FrameSerializer;
use pixelflut::build_slabs;

const RED: Color = Color { r: 0xff, g: 0, b: 0, a: 0xff };

fn frame_of(width: usize, height: usize, cells: Vec<Color>) -> Frame {
    assert_eq!(cells.len(), width * height);
    Frame { width, height, data: cells }
}

fn row_pixels(frame: &Frame) -> Vec<pixelflut::Pixel> {
    let mut s = FrameSerializer::row();
    s.serialize(frame)
}

#[test]
fn solid_red_square_row_order_one_stream() {
    let frame = frame_of(2, 2, vec![RED; 4]);
    let pixels = row_pixels(&frame);
    let slabs = build_slabs(&pixels, 1, Coordinate::null());
    assert_eq!(slabs.len(), 1);
    let expected = b"PX 0 0 ff0000\nPX 1 0 ff0000\nPX 0 1 ff0000\nPX 1 1 ff0000\n".to_vec();
    assert_eq!(slabs[0], expected);
}

#[test]
fn solid_red_square_with_offset() {
    let frame = frame_of(2, 2, vec![RED; 4]);
    let pixels = row_pixels(&frame);
    let slabs = build_slabs(&pixels, 1, Coordinate::new(100, 200));
    let expected =
        b"PX 100 200 ff0000\nPX 101 200 ff0000\nPX 100 201 ff0000\nPX 101 201 ff0000\n".to_vec();
    assert_eq!(slabs[0], expected);
}

#[test]
fn transparent_cell_is_omitted_entirely() {
    let clear = Color::rgba(1, 2, 3, 0);
    let frame = frame_of(2, 2, vec![RED, clear, RED, RED]);
    let pixels = row_pixels(&frame);
    let slabs = build_slabs(&pixels, 1, Coordinate::null());
    let expected = b"PX 0 0 ff0000\nPX 0 1 ff0000\nPX 1 1 ff0000\n".to_vec();
    assert_eq!(slabs[0], expected);
}

#[test]
fn three_streams_take_one_row_each() {
    let frame = frame_of(3, 3, vec![RED; 9]);
    let pixels = row_pixels(&frame);
    let slabs = build_slabs(&pixels, 3, Coordinate::null());
    assert_eq!(slabs.len(), 3);
    assert_eq!(slabs[0], b"PX 0 0 ff0000\nPX 1 0 ff0000\nPX 2 0 ff0000\n".to_vec());
    assert_eq!(slabs[1], b"PX 0 1 ff0000\nPX 1 1 ff0000\nPX 2 1 ff0000\n".to_vec());
    assert_eq!(slabs[2], b"PX 0 2 ff0000\nPX 1 2 ff0000\nPX 2 2 ff0000\n".to_vec());
}

#[test]
fn remainder_pixels_go_to_the_last_slab() {
    let frame = frame_of(4, 1, vec![RED; 4]);
    let pixels = row_pixels(&frame);
    let slabs = build_slabs(&pixels, 3, Coordinate::null());
    assert_eq!(slabs.len(), 3);
    assert_eq!(slabs[0], b"PX 0 0 ff0000\n".to_vec());
    assert_eq!(slabs[1], b"PX 1 0 ff0000\n".to_vec());
    assert_eq!(slabs[2], b"PX 2 0 ff0000\nPX 3 0 ff0000\n".to_vec());
}

#[test]
fn slab_pixel_counts_follow_the_floor_rule() {
    // Ten opaque pixels over three streams: 3, 3 and 4 lines.
    let frame = frame_of(10, 1, vec![RED; 10]);
    let pixels = row_pixels(&frame);
    let slabs = build_slabs(&pixels, 3, Coordinate::null());
    let lines = |slab: &Vec<u8>| slab.iter().filter(|&&b| b == b'\n').count();
    assert_eq!(lines(&slabs[0]), 3);
    assert_eq!(lines(&slabs[1]), 3);
    assert_eq!(lines(&slabs[2]), 4);
}

#[test]
fn no_streams_means_no_slabs() {
    let frame = frame_of(2, 2, vec![RED; 4]);
    let pixels = row_pixels(&frame);
    let slabs = build_slabs(&pixels, 0, Coordinate::null());
    assert_eq!(slabs.len(), 0);
}

#[test]
fn concatenated_slabs_equal_the_single_stream() {
    let frame = frame_of(5, 3, vec![RED; 15]);
    let pixels = row_pixels(&frame);
    let whole = build_slabs(&pixels, 1, Coordinate::null());
    let split = build_slabs(&pixels, 4, Coordinate::null());
    let mut joined: Vec<u8> = Vec::new();
    for slab in &split {
        joined.extend_from_slice(slab);
    }
    assert_eq!(joined, whole[0]);
}

#[test]
fn moving_the_offset_shifts_every_line() {
    let frame = frame_of(2, 1, vec![RED; 2]);
    let pixels = row_pixels(&frame);
    let base = build_slabs(&pixels, 1, Coordinate::new(5, 6));
    let moved = build_slabs(&pixels, 1, Coordinate::new(5 + 10, 6 + 20));
    assert_eq!(base[0], b"PX 5 6 ff0000\nPX 6 6 ff0000\n".to_vec());
    assert_eq!(moved[0], b"PX 15 26 ff0000\nPX 16 26 ff0000\n".to_vec());
}
