use pixelflut::Color;
use pixelflut::Frame;
use pixelflut::FrameSerializer;
use pixelflut::Pixel;

fn numbered_frame(width: usize, height: usize) -> Frame {
    // Give every cell a distinct color so orders are distinguishable.
    let mut data = Vec::new();
    for i in 0..width * height {
        data.push(Color::rgb((i % 256) as u8, ((i / 256) % 256) as u8, 7));
    }
    Frame { width, height, data }
}

fn coords(pixels: &[Pixel]) -> Vec<(usize, usize)> {
    pixels.iter().map(|p| (p.coordinate.x, p.coordinate.y)).collect()
}

#[test]
fn row_order_visits_rows_from_the_top() {
    let frame = numbered_frame(3, 2);
    let mut s = FrameSerializer::row();
    let out = s.serialize(&frame);
    assert_eq!(coords(&out), vec![(0, 0), (1, 0), (2, 0), (0, 1), (1, 1), (2, 1)]);
}

#[test]
fn column_order_visits_columns_from_the_left() {
    let frame = numbered_frame(3, 2);
    let mut s = FrameSerializer::column();
    let out = s.serialize(&frame);
    assert_eq!(coords(&out), vec![(0, 0), (0, 1), (1, 0), (1, 1), (2, 0), (2, 1)]);
}

#[test]
fn row_order_pairs_each_cell_with_its_color() {
    let frame = numbered_frame(3, 2);
    let mut s = FrameSerializer::row();
    let out = s.serialize(&frame);
    for (i, p) in out.iter().enumerate() {
        assert_eq!(p.color, frame.data[i]);
    }
}

#[test]
fn random_order_is_a_permutation_of_the_grid() {
    let frame = numbered_frame(16, 16);
    let mut row = FrameSerializer::row();
    let mut random = FrameSerializer::random();
    let mut expected = coords(&row.serialize(&frame));
    let mut got = coords(&random.serialize(&frame));
    expected.sort();
    got.sort();
    assert_eq!(got, expected);
}

#[test]
fn two_random_serializations_differ() {
    // 256 cells have 256! orders; two independent draws agreeing would
    // void the shuffle.
    let frame = numbered_frame(16, 16);
    let mut s = FrameSerializer::random();
    let first = coords(&s.serialize(&frame));
    let second = coords(&s.serialize(&frame));
    assert_ne!(first, second);
}

#[test]
fn duplicated_random_serializer_draws_independently() {
    let frame = numbered_frame(16, 16);
    let mut a = FrameSerializer::random();
    let mut b = a.duplicate();
    let from_a = coords(&a.serialize(&frame));
    let from_b = coords(&b.serialize(&frame));
    assert_ne!(from_a, from_b);
}

#[test]
fn duplicate_keeps_the_strategy() {
    let frame = numbered_frame(2, 2);
    let row = FrameSerializer::row();
    let mut copy = row.duplicate();
    let out = copy.serialize(&frame);
    assert_eq!(coords(&out), vec![(0, 0), (1, 0), (0, 1), (1, 1)]);
}

#[test]
fn single_cell_frame_serializes_to_itself() {
    let frame = numbered_frame(1, 1);
    let mut s = FrameSerializer::random();
    let out = s.serialize(&frame);
    assert_eq!(out.len(), 1);
    assert_eq!(coords(&out), vec![(0, 0)]);
}
