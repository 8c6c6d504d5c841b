//! Emission orders for a frame's pixels: row-major, column-major, or a
//! fresh uniformly random permutation on every serialization.

use vstd::prelude::*;

use rand::rngs::SmallRng;

use crate::coordinate::Coordinate;
use crate::frame::Frame;
use crate::pixel::Pixel;
use crate::rng::fresh_rng;
use crate::rng::shuffle_pixels;

verus! {

/// The row-major emission order: for each row from the top, every column
/// from the left.
pub open spec fn row_seq(f: Frame) -> Seq<Pixel> {
    f.pixel_seq()
}

/// The column-major emission order: for each column from the left, every
/// row from the top.
pub open spec fn column_seq(f: Frame) -> Seq<Pixel> {
    Seq::new(
        (f.width * f.height) as nat,
        |i: int|
            Pixel {
                coordinate: Coordinate {
                    x: (i / f.height as int) as usize,
                    y: (i % f.height as int) as usize,
                },
                color: f.cell(i / f.height as int, i % f.height as int),
            },
    )
}

/// Whether every pixel of `out` sits inside the grid of `f`.
pub open spec fn pixels_in_frame(out: Seq<Pixel>, f: Frame) -> bool {
    forall|k: int|
        0 <= k < out.len() ==> (#[trigger] out[k]).coordinate.x < f.width && out[k].coordinate.y
            < f.height
}

/// Emits pixels row by row.
#[derive(Clone, Copy, Debug, Default, PartialEq, Eq, Structural)]
pub struct RowSerializer;

/// Emits pixels column by column.
#[derive(Clone, Copy, Debug, Default, PartialEq, Eq, Structural)]
pub struct ColumnSerializer;

/// Emits pixels in a fresh uniformly random order each time, drawn from an
/// entropy-seeded generator.
pub struct RandomSerializer {
    rng: SmallRng,
}

impl RowSerializer {
    /// The frame's pixels in row-major order.
    pub fn serialize(&mut self, frame: &Frame) -> (r: Vec<Pixel>)
        requires
            frame.wf(),
        ensures
            r@ == row_seq(*frame),
    {
        collect_row_pixels(frame)
    }

    /// A serializer that emits the same order.
    pub fn duplicate(&self) -> (r: RowSerializer)
        ensures
            r == *self,
    {
        RowSerializer
    }
}

impl ColumnSerializer {
    /// The frame's pixels in column-major order.
    pub fn serialize(&mut self, frame: &Frame) -> (r: Vec<Pixel>)
        requires
            frame.wf(),
        ensures
            r@ == column_seq(*frame),
    {
        collect_column_pixels(frame)
    }

    /// A serializer that emits the same order.
    pub fn duplicate(&self) -> (r: ColumnSerializer)
        ensures
            r == *self,
    {
        ColumnSerializer
    }
}

impl RandomSerializer {
    /// A random serializer seeded from the system's entropy source.
    pub fn new() -> RandomSerializer {
        RandomSerializer { rng: fresh_rng() }
    }

    /// The frame's pixels in a fresh random order: a permutation of the
    /// grid, holding every cell exactly once.
    pub fn serialize(&mut self, frame: &Frame) -> (r: Vec<Pixel>)
        requires
            frame.wf(),
        ensures
            r@.to_multiset() == row_seq(*frame).to_multiset(),
            r@.len() == frame.width * frame.height,
            pixels_in_frame(r@, *frame),
    {
        let mut pixels = collect_row_pixels(frame);
        proof {
            lemma_row_seq_in_frame(*frame);
        }
        shuffle_pixels(&mut pixels, &mut self.rng);
        proof {
            lemma_multiset_keeps_pixels_in_frame(row_seq(*frame), pixels@, *frame);
        }
        pixels
    }

    /// A random serializer over a fresh entropy seed, so that concurrent
    /// serializations draw independent permutations.
    pub fn duplicate(&self) -> RandomSerializer {
        RandomSerializer { rng: fresh_rng() }
    }
}

/// A serialization strategy: one of the three fixed emission orders.
pub enum FrameSerializer {
    Row(RowSerializer),
    Column(ColumnSerializer),
    Random(RandomSerializer),
}

/// Whether `a` and `b` use the same emission strategy.
pub open spec fn same_kind(a: FrameSerializer, b: FrameSerializer) -> bool {
    &&& (a is Row <==> b is Row)
    &&& (a is Column <==> b is Column)
    &&& (a is Random <==> b is Random)
}

/// What a serializer promises of its output: row and column orders are
/// fixed sequences; the random order is some permutation of the grid.
pub open spec fn serialization_ok(s: FrameSerializer, f: Frame, out: Seq<Pixel>) -> bool {
    match s {
        FrameSerializer::Row(_) => out == row_seq(f),
        FrameSerializer::Column(_) => out == column_seq(f),
        FrameSerializer::Random(_) => out.to_multiset() == row_seq(f).to_multiset(),
    }
}

impl FrameSerializer {
    /// A serializer for the row-major order.
    pub fn row() -> (r: FrameSerializer)
        ensures
            r is Row,
    {
        FrameSerializer::Row(RowSerializer)
    }

    /// A serializer for the column-major order.
    pub fn column() -> (r: FrameSerializer)
        ensures
            r is Column,
    {
        FrameSerializer::Column(ColumnSerializer)
    }

    /// A serializer for a random order, seeded from entropy.
    pub fn random() -> (r: FrameSerializer)
        ensures
            r is Random,
    {
        FrameSerializer::Random(RandomSerializer::new())
    }

    /// The frame's pixels in this serializer's order: always one pixel per
    /// grid cell, each cell exactly once.
    pub fn serialize(&mut self, frame: &Frame) -> (r: Vec<Pixel>)
        requires
            frame.wf(),
        ensures
            serialization_ok(*old(self), *frame, r@),
            same_kind(*final(self), *old(self)),
            r@.len() == frame.width * frame.height,
            pixels_in_frame(r@, *frame),
    {
        proof {
            lemma_row_seq_in_frame(*frame);
            lemma_column_seq_in_frame(*frame);
        }
        match self {
            FrameSerializer::Row(s) => s.serialize(frame),
            FrameSerializer::Column(s) => s.serialize(frame),
            FrameSerializer::Random(s) => s.serialize(frame),
        }
    }

    /// A serializer of the same strategy for the next update cycle; the
    /// random strategy re-seeds, so the copy draws an independent order.
    pub fn duplicate(&self) -> (r: FrameSerializer)
        ensures
            same_kind(r, *self),
    {
        match self {
            FrameSerializer::Row(s) => FrameSerializer::Row(s.duplicate()),
            FrameSerializer::Column(s) => FrameSerializer::Column(s.duplicate()),
            FrameSerializer::Random(s) => FrameSerializer::Random(s.duplicate()),
        }
    }
}

/// The frame's pixels in row-major order, as a vector.
fn collect_row_pixels(frame: &Frame) -> (r: Vec<Pixel>)
    requires
        frame.wf(),
    ensures
        r@ == row_seq(*frame),
{
    let count = frame.width * frame.height;
    let mut out: Vec<Pixel> = Vec::new();
    let mut i: usize = 0;
    while i < count
        invariant
            frame.wf(),
            count == frame.width * frame.height,
            i <= count,
            out@.len() == i,
            forall|k: int| 0 <= k < i ==> out@[k] == row_seq(*frame)[k],
        decreases count - i,
    {
        let x = i % frame.width;
        let y = i / frame.width;
        let p = Pixel { coordinate: Coordinate { x, y }, color: frame.data[i] };
        out.push(p);
        i = i + 1;
    }
    proof {
        assert(out@ =~= row_seq(*frame));
    }
    out
}

/// The frame's pixels in column-major order, as a vector.
fn collect_column_pixels(frame: &Frame) -> (r: Vec<Pixel>)
    requires
        frame.wf(),
    ensures
        r@ == column_seq(*frame),
{
    let count = frame.width * frame.height;
    let mut out: Vec<Pixel> = Vec::new();
    let mut i: usize = 0;
    while i < count
        invariant
            frame.wf(),
            count == frame.width * frame.height,
            i <= count,
            out@.len() == i,
            forall|k: int| 0 <= k < i ==> out@[k] == column_seq(*frame)[k],
        decreases count - i,
    {
        proof {
            assert((i as int) / (frame.height as int) < frame.width) by (nonlinear_arith)
                requires
                    0 <= i < frame.width * frame.height,
                    0 < frame.height,
            ;
        }
        let x = i / frame.height;
        let y = i % frame.height;
        let p = Pixel { coordinate: Coordinate { x, y }, color: frame.get(x, y) };
        out.push(p);
        i = i + 1;
    }
    proof {
        assert(out@ =~= column_seq(*frame));
    }
    out
}

/// Every pixel of the row-major order sits inside the frame's grid.
pub proof fn lemma_row_seq_in_frame(f: Frame)
    requires
        f.wf(),
    ensures
        pixels_in_frame(row_seq(f), f),
{
    assert forall|k: int| 0 <= k < row_seq(f).len() implies (#[trigger] row_seq(
        f,
    )[k]).coordinate.x < f.width && row_seq(f)[k].coordinate.y < f.height by {
        assert(k % (f.width as int) < f.width && k / (f.width as int) < f.height)
            by (nonlinear_arith)
            requires
                0 <= k < f.width * f.height,
        ;
    }
}

/// Every pixel of the column-major order sits inside the frame's grid.
pub proof fn lemma_column_seq_in_frame(f: Frame)
    requires
        f.wf(),
    ensures
        pixels_in_frame(column_seq(f), f),
{
    assert forall|k: int| 0 <= k < column_seq(f).len() implies (#[trigger] column_seq(
        f,
    )[k]).coordinate.x < f.width && column_seq(f)[k].coordinate.y < f.height by {
        assert(k / (f.height as int) < f.width && k % (f.height as int) < f.height)
            by (nonlinear_arith)
            requires
                0 <= k < f.width * f.height,
        ;
    }
}

/// The row-major order visits every cell of the grid exactly once, rows
/// from the top and columns from the left within a row: the pixel of cell
/// `(x, y)` stands at index `y * width + x` and at no other index.
pub proof fn lemma_row_order_visits_once(f: Frame, x: int, y: int)
    requires
        f.wf(),
        0 <= x < f.width,
        0 <= y < f.height,
    ensures
        row_seq(f).len() == f.width * f.height,
        0 <= y * f.width + x < f.width * f.height,
        row_seq(f)[y * f.width + x].coordinate == (Coordinate { x: x as usize, y: y as usize }),
        row_seq(f)[y * f.width + x].color == f.cell(x, y),
        forall|i: int|
            0 <= i < row_seq(f).len() && i != y * f.width + x ==> (#[trigger] row_seq(
                f,
            )[i]).coordinate != (Coordinate { x: x as usize, y: y as usize }),
{
    crate::frame::lemma_cell_index_in_range(f.width as int, f.height as int, x, y);
    let w = f.width as int;
    let idx = y * w + x;
    assert(idx % w == x && idx / w == y) by (nonlinear_arith)
        requires
            0 <= x < w,
            0 <= y,
            idx == y * w + x,
    ;
    assert forall|i: int|
        0 <= i < row_seq(f).len() && i != idx implies (#[trigger] row_seq(f)[i]).coordinate != (
    Coordinate { x: x as usize, y: y as usize }) by {
        if row_seq(f)[i].coordinate == (Coordinate { x: x as usize, y: y as usize }) {
            assert(i % w == x && i / w == y);
            vstd::arithmetic::div_mod::lemma_fundamental_div_mod(i, w);
            assert(i == w * (i / w) + i % w);
            assert(w * y == y * w) by (nonlinear_arith);
            assert(i == idx);
        }
    }
}

/// The column-major order visits every cell of the grid exactly once,
/// columns from the left and rows from the top within a column: the pixel
/// of cell `(x, y)` stands at index `x * height + y` and at no other
/// index.
pub proof fn lemma_column_order_visits_once(f: Frame, x: int, y: int)
    requires
        f.wf(),
        0 <= x < f.width,
        0 <= y < f.height,
    ensures
        column_seq(f).len() == f.width * f.height,
        0 <= x * f.height + y < f.width * f.height,
        column_seq(f)[x * f.height + y].coordinate == (Coordinate { x: x as usize, y: y as usize }),
        column_seq(f)[x * f.height + y].color == f.cell(x, y),
        forall|i: int|
            0 <= i < column_seq(f).len() && i != x * f.height + y ==> (#[trigger] column_seq(
                f,
            )[i]).coordinate != (Coordinate { x: x as usize, y: y as usize }),
{
    let h = f.height as int;
    let idx = x * h + y;
    assert(0 <= idx < f.height * f.width) by (nonlinear_arith)
        requires
            0 <= x < f.width,
            0 <= y < h,
            h == f.height,
            idx == x * h + y,
    ;
    assert(f.height * f.width == f.width * f.height) by (nonlinear_arith);
    assert(idx % h == y && idx / h == x) by (nonlinear_arith)
        requires
            0 <= y < h,
            0 <= x,
            idx == x * h + y,
    ;
    assert forall|i: int|
        0 <= i < column_seq(f).len() && i != idx implies (#[trigger] column_seq(f)[i]).coordinate
        != (Coordinate { x: x as usize, y: y as usize }) by {
        if column_seq(f)[i].coordinate == (Coordinate { x: x as usize, y: y as usize }) {
            assert(i % h == y && i / h == x);
            vstd::arithmetic::div_mod::lemma_fundamental_div_mod(i, h);
            assert(i == h * (i / h) + i % h);
            assert(h * x == x * h) by (nonlinear_arith);
            assert(i == idx);
        }
    }
}

/// Both fixed orders hold exactly the frame's cells: the column-major
/// stream is a permutation of the row-major one.
pub proof fn lemma_orders_hold_the_same_cells(f: Frame)
    requires
        f.wf(),
    ensures
        column_seq(f).to_multiset() == row_seq(f).to_multiset(),
{
    broadcast use vstd::multiset::group_multiset_axioms;

    let w = f.width as int;
    let h = f.height as int;
    let rs = row_seq(f);
    let cs = column_seq(f);
    rs.to_multiset_ensures();
    cs.to_multiset_ensures();
    if f.width == 0 || f.height == 0 {
        assert(w * h == 0) by (nonlinear_arith)
            requires
                w == 0 || h == 0,
        ;
        assert(rs =~= Seq::<Pixel>::empty());
        assert(cs =~= Seq::<Pixel>::empty());
        assert(cs.to_multiset() =~= rs.to_multiset());
    } else {
        // Distinct indices carry distinct coordinates, in either order.
        assert forall|i: int, j: int|
            0 <= i < rs.len() && 0 <= j < rs.len() && i != j implies rs[i] != rs[j] by {
            if rs[i].coordinate == rs[j].coordinate {
                assert(0 <= i % w < w && 0 <= j % w < w) by (nonlinear_arith)
                    requires
                        0 <= i,
                        0 <= j,
                        0 < w,
                ;
                assert(i % w == j % w && i / w == j / w);
                vstd::arithmetic::div_mod::lemma_fundamental_div_mod(i, w);
                vstd::arithmetic::div_mod::lemma_fundamental_div_mod(j, w);
                assert(i == j);
            }
        }
        assert forall|i: int, j: int|
            0 <= i < cs.len() && 0 <= j < cs.len() && i != j implies cs[i] != cs[j] by {
            if cs[i].coordinate == cs[j].coordinate {
                assert(0 <= i % h < h && 0 <= j % h < h) by (nonlinear_arith)
                    requires
                        0 <= i,
                        0 <= j,
                        0 < h,
                ;
                assert(i % h == j % h && i / h == j / h);
                vstd::arithmetic::div_mod::lemma_fundamental_div_mod(i, h);
                vstd::arithmetic::div_mod::lemma_fundamental_div_mod(j, h);
                assert(i == j);
            }
        }
        rs.lemma_multiset_has_no_duplicates();
        cs.lemma_multiset_has_no_duplicates();
        // Every pixel of one order stands in the other as well.
        assert forall|i: int| 0 <= i < rs.len() implies cs.contains(rs[i]) by {
            let x = i % w;
            let y = i / w;
            assert(0 <= x < w && 0 <= y < h) by (nonlinear_arith)
                requires
                    0 <= i < w * h,
                    0 < w,
                    x == i % w,
                    y == i / w,
            ;
            let j = x * h + y;
            assert(0 <= j < w * h && j % h == y && j / h == x) by (nonlinear_arith)
                requires
                    0 <= x < w,
                    0 <= y < h,
                    j == x * h + y,
            ;
            vstd::arithmetic::div_mod::lemma_fundamental_div_mod(i, w);
            assert(i == w * y + x);
            assert(w * y == y * w) by (nonlinear_arith);
            assert(f.cell(x, y) == f.data@[i]);
            assert(cs[j] == rs[i]);
        }
        assert forall|i: int| 0 <= i < cs.len() implies rs.contains(cs[i]) by {
            let x = i / h;
            let y = i % h;
            assert(0 <= y < h && 0 <= x < w) by (nonlinear_arith)
                requires
                    0 <= i < w * h,
                    0 < h,
                    x == i / h,
                    y == i % h,
            ;
            let j = y * w + x;
            assert(0 <= j < w * h && j % w == x && j / w == y) by (nonlinear_arith)
                requires
                    0 <= x < w,
                    0 <= y < h,
                    j == y * w + x,
            ;
            assert(f.cell(x, y) == f.data@[j]);
            assert(rs[j] == cs[i]);
        }
        // Equal element sets without duplicates give equal multisets.
        assert forall|p: Pixel| cs.to_multiset().count(p) == rs.to_multiset().count(p) by {
            if rs.contains(p) {
                assert(cs.contains(p));
            } else if cs.contains(p) {
                assert(rs.contains(p));
            } else {
                assert(rs.to_multiset().count(p) == 0);
                assert(cs.to_multiset().count(p) == 0);
            }
        }
        assert(cs.to_multiset() =~= rs.to_multiset());
    }
}

/// A sequence with the same multiset as one whose pixels sit in the grid
/// of `f` sits in the grid of `f` as well.
pub proof fn lemma_multiset_keeps_pixels_in_frame(a: Seq<Pixel>, b: Seq<Pixel>, f: Frame)
    requires
        a.to_multiset() == b.to_multiset(),
        pixels_in_frame(a, f),
    ensures
        pixels_in_frame(b, f),
{
    assert forall|k: int| 0 <= k < b.len() implies (#[trigger] b[k]).coordinate.x < f.width
        && b[k].coordinate.y < f.height by {
        b.to_multiset_ensures();
        a.to_multiset_ensures();
        assert(b.contains(b[k]));
        assert(b.to_multiset().count(b[k]) > 0);
        assert(a.contains(b[k]));
        let j = choose|j: int| 0 <= j < a.len() && a[j] == b[k];
        assert(a[j].coordinate.x < f.width && a[j].coordinate.y < f.height);
    }
}

} // verus!
