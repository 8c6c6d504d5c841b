use pixelflut::Color;
use pixelflut::Coordinate;
use pixelflut::Dimension;
use pixelflut::Frame;
use pixelflut::FrameResizer;
use pixelflut::FrameSerializer;
use pixelflut::ResizeFilter;
use pixelflut::ResizeType;
use pixelflut::build_slabs;
use pixelflut::resize_feasible_check;

fn solid(width: usize, height: usize, c: Color) -> Frame {
    Frame { width, height, data: vec![c; width * height] }
}

fn dim(width: usize, height: usize) -> Dimension {
    Dimension { width, height }
}

#[test]
fn fill_letterboxes_a_wide_source() {
    // A 100x50 source into a 100x100 target: 25 transparent rows above
    // and below, the source across the middle 50 rows.
    let red = Color::rgb(0xff, 0, 0);
    let src = solid(100, 50, red);
    let mut resizer = FrameResizer::new(src);
    resizer.update_filter(ResizeFilter::Nearest);
    resizer.update_dimensions(dim(100, 100));
    let out = resizer.update_type(ResizeType::Fill);
    assert_eq!(out.width, 100);
    assert_eq!(out.height, 100);
    for y in 0..100 {
        for x in 0..100 {
            let cell = out.get(x, y);
            if y < 25 || y >= 75 {
                assert_eq!(cell.alpha(), 0);
            } else {
                assert_eq!(cell, red);
            }
        }
    }
}

#[test]
fn fill_output_emits_exactly_the_scaled_source() {
    let red = Color::rgb(0xff, 0, 0);
    let src = solid(100, 50, red);
    let mut resizer = FrameResizer::new(src);
    resizer.update_filter(ResizeFilter::Nearest);
    resizer.update_dimensions(dim(100, 100));
    let out = resizer.update_type(ResizeType::Fill);
    let mut s = FrameSerializer::row();
    let pixels = s.serialize(&out);
    let slabs = build_slabs(&pixels, 1, Coordinate::null());
    let lines = slabs[0].iter().filter(|&&b| b == b'\n').count();
    assert_eq!(lines, 100 * 50);
}

#[test]
fn stretch_to_same_size_is_identity() {
    let mut data = Vec::new();
    for i in 0..6 {
        data.push(Color::rgb(i as u8, 2 * i as u8, 3 * i as u8));
    }
    let src = Frame { width: 3, height: 2, data: data.clone() };
    let mut resizer = FrameResizer::new(src);
    let out = resizer.update_type(ResizeType::Stretch);
    assert_eq!(out.width, 3);
    assert_eq!(out.height, 2);
    assert_eq!(out.data, data);
}

#[test]
fn stretch_changes_the_dimensions() {
    let red = Color::rgb(0xff, 0, 0);
    let src = solid(2, 1, red);
    let mut resizer = FrameResizer::new(src);
    let out = resizer.update_dimensions(dim(4, 2));
    assert_eq!(out.width, 4);
    assert_eq!(out.height, 2);
    assert_eq!(out.data.len(), 8);
    for cell in &out.data {
        assert_eq!(*cell, red);
    }
}

#[test]
fn crop_takes_the_centered_window() {
    // A 4x2 source into a 2x2 target: the covering scale is the source
    // itself, so the output is its centered 2x2 window, columns 1 and 2.
    let mut data = Vec::new();
    for i in 0..8 {
        data.push(Color::rgb(i as u8, 0, 0));
    }
    let src = Frame { width: 4, height: 2, data };
    let mut resizer = FrameResizer::new(src);
    resizer.update_filter(ResizeFilter::Nearest);
    resizer.update_dimensions(dim(2, 2));
    let out = resizer.update_type(ResizeType::Crop);
    assert_eq!(out.width, 2);
    assert_eq!(out.height, 2);
    assert_eq!(out.get(0, 0).red(), 1);
    assert_eq!(out.get(1, 0).red(), 2);
    assert_eq!(out.get(0, 1).red(), 5);
    assert_eq!(out.get(1, 1).red(), 6);
}

#[test]
fn update_frame_replaces_the_source() {
    let red = Color::rgb(0xff, 0, 0);
    let blue = Color::rgb(0, 0, 0xff);
    let mut resizer = FrameResizer::new(solid(2, 2, red));
    let out = resizer.update_frame(solid(2, 2, blue));
    assert_eq!(out.get(0, 0), blue);
    assert_eq!(resizer.resized_frame().get(1, 1), blue);
}

#[test]
fn resample_really_resamples() {
    // Shrinking a half-black, half-white row with the triangle filter
    // must produce something other than either input pixel run.
    let mut data = Vec::new();
    for i in 0..8 {
        data.push(if i < 4 { Color::rgb(0, 0, 0) } else { Color::rgb(0xff, 0xff, 0xff) });
    }
    let src = Frame { width: 8, height: 1, data };
    let mut resizer = FrameResizer::new(src);
    resizer.update_filter(ResizeFilter::Triangle);
    let out = resizer.update_dimensions(dim(2, 1));
    assert_eq!(out.width, 2);
    assert_eq!(out.height, 1);
    // The left output pixel averages black pixels, the right white ones.
    assert!(out.get(0, 0).red() < 0x80);
    assert!(out.get(1, 0).red() > 0x7f);
}

#[test]
fn fill_rounds_the_fitted_side_to_nearest() {
    // A 3x2 source into a 4x3 target: the scaled height is 8/3, which
    // rounds up to 3, so the image covers the whole target and no
    // letterbox border remains.
    let red = Color::rgb(0xff, 0, 0);
    let src = solid(3, 2, red);
    let mut resizer = FrameResizer::new(src);
    resizer.update_filter(ResizeFilter::Nearest);
    resizer.update_dimensions(dim(4, 3));
    let out = resizer.update_type(ResizeType::Fill);
    for y in 0..3 {
        for x in 0..4 {
            assert_eq!(out.get(x, y).alpha(), 0xff);
        }
    }
}

#[test]
fn feasibility_accepts_ordinary_shapes() {
    assert!(resize_feasible_check(dim(100, 50), dim(100, 100), ResizeType::Crop));
    assert!(resize_feasible_check(dim(1920, 1080), dim(640, 480), ResizeType::Crop));
    assert!(resize_feasible_check(dim(1920, 1080), dim(640, 480), ResizeType::Stretch));
    assert!(resize_feasible_check(dim(1920, 1080), dim(640, 480), ResizeType::Fill));
}

#[test]
fn feasibility_rejects_extreme_crops() {
    // A one-pixel-tall panorama covering a tall target would need a
    // covering raster wider than the image library can hold.
    assert!(!resize_feasible_check(dim(4_000_000_000, 1), dim(1, 4_000_000_000), ResizeType::Crop));
}

#[test]
fn feasibility_rejects_extreme_stretches() {
    // Stretching a maximally wide row into a maximally tall column would
    // need an intermediate raster of the source width by the target
    // height, far beyond any flat buffer.
    assert!(!resize_feasible_check(
        dim(4_294_967_295, 1),
        dim(1, 4_294_967_295),
        ResizeType::Stretch
    ));
}
