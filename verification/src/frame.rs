//! The RGBA raster the painter works on: origin top-left, row-major in
//! memory.

use vstd::prelude::*;

use crate::coordinate::Coordinate;
use crate::coordinate::Dimension;
use crate::pixel::Color;
use crate::pixel::Pixel;

verus! {

/// A `width` x `height` grid of RGBA samples, stored row-major.
#[derive(Debug)]
pub struct Frame {
    pub width: usize,
    pub height: usize,
    pub data: Vec<Color>,
}

impl Frame {
    /// The shape a frame always has: one sample per cell, and dimensions
    /// small enough that the raster also fits in a flat byte buffer.
    pub open spec fn wf(self) -> bool {
        &&& self.data@.len() == self.width * self.height
        &&& self.width <= u32::MAX
        &&& self.height <= u32::MAX
        &&& self.width * self.height <= usize::MAX
        &&& 4 * self.width * self.height <= usize::MAX
    }

    /// The sample of the cell at column `x`, row `y`.
    pub open spec fn cell(self, x: int, y: int) -> Color {
        self.data@[y * self.width + x]
    }

    /// The cells in row-major order, each paired with its own grid
    /// position.
    pub open spec fn pixel_seq(self) -> Seq<Pixel> {
        Seq::new(
            (self.width * self.height) as nat,
            |i: int|
                Pixel {
                    coordinate: Coordinate {
                        x: (i % self.width as int) as usize,
                        y: (i / self.width as int) as usize,
                    },
                    color: self.data@[i],
                },
        )
    }

    /// A fully transparent frame of the given dimension.
    pub fn new(dimension: Dimension) -> (f: Frame)
        requires
            dimension.width <= u32::MAX,
            dimension.height <= u32::MAX,
            4 * dimension.width * dimension.height <= usize::MAX,
        ensures
            f.wf(),
            f.width == dimension.width,
            f.height == dimension.height,
            forall|i: int| 0 <= i < f.data@.len() ==> f.data@[i] == (Color {
                r: 0u8,
                g: 0u8,
                b: 0u8,
                a: 0u8,
            }),
    {
        proof {
            assert(dimension.width * dimension.height <= 4 * dimension.width * dimension.height)
                by (nonlinear_arith)
                requires
                    dimension.width >= 0,
                    dimension.height >= 0,
            ;
        }
        let count = dimension.width * dimension.height;
        let mut data: Vec<Color> = Vec::new();
        let mut i: usize = 0;
        while i < count
            invariant
                i <= count,
                data@.len() == i,
                forall|k: int| 0 <= k < i ==> data@[k] == (Color { r: 0u8, g: 0u8, b: 0u8, a: 0u8 }),
            decreases count - i,
        {
            data.push(Color::null());
            i = i + 1;
        }
        Frame { width: dimension.width, height: dimension.height, data }
    }

    /// The dimension of this frame.
    pub fn dimension(&self) -> (d: Dimension)
        ensures
            d.width == self.width,
            d.height == self.height,
    {
        Dimension { width: self.width, height: self.height }
    }

    /// Reads the sample at `(x, y)`.
    pub fn get(&self, x: usize, y: usize) -> (c: Color)
        requires
            self.wf(),
            x < self.width,
            y < self.height,
        ensures
            c == self.cell(x as int, y as int),
    {
        proof {
            lemma_cell_index_in_range(self.width as int, self.height as int, x as int, y as int);
        }
        self.data[y * self.width + x]
    }

    /// Writes the sample at `(x, y)`, leaving every other cell unchanged.
    pub fn set(&mut self, x: usize, y: usize, color: Color)
        requires
            old(self).wf(),
            x < old(self).width,
            y < old(self).height,
        ensures
            final(self).wf(),
            final(self).width == old(self).width,
            final(self).height == old(self).height,
            final(self).data@ == old(self).data@.update(y * old(self).width + x, color),
    {
        proof {
            lemma_cell_index_in_range(self.width as int, self.height as int, x as int, y as int);
        }
        let i = y * self.width + x;
        self.data[i] = color;
    }

    /// An identical copy of the raster.
    pub fn duplicate(&self) -> (r: Frame)
        ensures
            frame_eqv(r, *self),
    {
        let data = self.data.clone();
        proof {
            assert(data@ =~= self.data@);
        }
        Frame { width: self.width, height: self.height, data }
    }

    /// The raster as flat RGBA bytes, four per cell.
    pub fn to_rgba_bytes(&self) -> (r: Vec<u8>)
        ensures
            r@ == rgba_bytes(self.data@),
    {
        let mut buf: Vec<u8> = Vec::new();
        let mut i: usize = 0;
        proof {
            assert(self.data@.take(0) =~= Seq::<Color>::empty());
        }
        while i < self.data.len()
            invariant
                i <= self.data@.len(),
                buf@ == rgba_bytes(self.data@.take(i as int)),
            decreases self.data@.len() - i,
        {
            let c = self.data[i];
            buf.push(c.r);
            buf.push(c.g);
            buf.push(c.b);
            buf.push(c.a);
            proof {
                assert(self.data@.take(i + 1).drop_last() =~= self.data@.take(i as int));
                assert(buf@ =~= rgba_bytes(self.data@.take(i + 1)));
            }
            i = i + 1;
        }
        proof {
            assert(self.data@.take(self.data@.len() as int) =~= self.data@);
        }
        buf
    }

    /// Rebuilds a frame from flat RGBA bytes, four per cell, row-major.
    pub fn from_rgba_bytes(bytes: &Vec<u8>, width: usize, height: usize) -> (f: Frame)
        requires
            bytes@.len() == 4 * width * height,
            width <= u32::MAX,
            height <= u32::MAX,
        ensures
            f.wf(),
            f.width == width,
            f.height == height,
            f.data@ == colors_of(bytes@),
    {
        let total = bytes.len();
        proof {
            assert(width * height <= 4 * width * height) by (nonlinear_arith)
                requires
                    width >= 0,
                    height >= 0,
            ;
            assert(4 * (width * height) == 4 * width * height) by (nonlinear_arith);
            assert((4 * (width * height)) as int / 4 == width * height) by (nonlinear_arith);
        }
        let count = width * height;
        let mut data: Vec<Color> = Vec::new();
        let mut i: usize = 0;
        while i < count
            invariant
                i <= count,
                count == width * height,
                bytes@.len() == 4 * count,
                4 * count <= usize::MAX,
                data@.len() == i,
                forall|k: int| 0 <= k < i ==> data@[k] == colors_of(bytes@)[k],
            decreases count - i,
        {
            let base = 4 * i;
            let c = Color { r: bytes[base], g: bytes[base + 1], b: bytes[base + 2], a: bytes[base
                + 3] };
            data.push(c);
            i = i + 1;
        }
        proof {
            assert(data@ =~= colors_of(bytes@));
        }
        Frame { width, height, data }
    }
}

/// Whether two frames hold the same raster: same dimensions and the same
/// samples in the same order.
pub open spec fn frame_eqv(a: Frame, b: Frame) -> bool {
    a.width == b.width && a.height == b.height && a.data@ == b.data@
}

/// `(x, y)` indexes into the row-major data of a `w` x `h` raster.
pub proof fn lemma_cell_index_in_range(w: int, h: int, x: int, y: int)
    requires
        0 <= x < w,
        0 <= y < h,
    ensures
        0 <= y * w + x < w * h,
{
    assert(y * w + x < w * h) by (nonlinear_arith)
        requires
            0 <= x < w,
            0 <= y < h,
    ;
    assert(y * w + x >= 0) by (nonlinear_arith)
        requires
            0 <= x,
            0 <= y,
            0 < w,
    ;
}

/// The flat RGBA byte form of a sample sequence, four bytes per sample.
pub open spec fn rgba_bytes(colors: Seq<Color>) -> Seq<u8>
    decreases colors.len(),
{
    if colors.len() == 0 {
        Seq::empty()
    } else {
        rgba_bytes(colors.drop_last()) + seq![
            colors.last().r,
            colors.last().g,
            colors.last().b,
            colors.last().a,
        ]
    }
}

/// The flat byte form holds exactly four bytes per sample.
pub proof fn lemma_rgba_bytes_len(colors: Seq<Color>)
    ensures
        rgba_bytes(colors).len() == 4 * colors.len(),
    decreases colors.len(),
{
    if colors.len() != 0 {
        lemma_rgba_bytes_len(colors.drop_last());
    }
}

/// The sample sequence read back from flat RGBA bytes.
pub open spec fn colors_of(bytes: Seq<u8>) -> Seq<Color> {
    Seq::new(
        (bytes.len() / 4) as nat,
        |i: int|
            Color { r: bytes[4 * i], g: bytes[4 * i + 1], b: bytes[4 * i + 2], a: bytes[4 * i + 3] },
    )
}

} // verus!
