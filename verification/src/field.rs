//! A pixel grid filled cell by cell: each cell holds a complete pixel,
//! canvas coordinate included. The fractal producer paints into one of
//! these and serialises it in a random order.

use vstd::prelude::*;

use crate::coordinate::Coordinate;
use crate::coordinate::Dimension;
use crate::frame::Frame;
use crate::pixel::Pixel;
use crate::rng::fresh_rng;
use crate::rng::shuffle_pixels;

verus! {

/// A `width` x `height` grid of pixels, indexed `[x][y]`.
pub struct Field {
    pub field: Vec<Vec<Pixel>>,
    pub dimension: Dimension,
}

impl Field {
    /// The shape a field always has: one column per `x`, one cell per
    /// `y`, and a cell count that fits the machine.
    pub open spec fn wf(self) -> bool {
        &&& self.field@.len() == self.dimension.width
        &&& forall|x: int|
            0 <= x < self.dimension.width ==> (#[trigger] self.field@[x])@.len()
                == self.dimension.height
        &&& self.dimension.width * self.dimension.height <= usize::MAX
    }

    /// The cells in serialisation order: index `i` holds the cell at
    /// column `i % width`, row `i / width`.
    pub open spec fn cells(self) -> Seq<Pixel> {
        Seq::new(
            (self.dimension.width * self.dimension.height) as nat,
            |i: int|
                self.field@[i % self.dimension.width as int]@[i / self.dimension.width as int],
        )
    }

    /// A field of transparent pixels at the origin.
    pub fn new(dimension: Dimension) -> (r: Field)
        requires
            dimension.width * dimension.height <= usize::MAX,
        ensures
            r.wf(),
            r.dimension == dimension,
            forall|i: int| 0 <= i < r.cells().len() ==> r.cells()[i] == Pixel::null_spec(),
    {
        let column: Vec<Pixel> = vec![Pixel::null(); dimension.height];
        let mut field: Vec<Vec<Pixel>> = Vec::new();
        let mut x: usize = 0;
        while x < dimension.width
            invariant
                x <= dimension.width,
                field@.len() == x,
                forall|k: int| 0 <= k < x ==> (#[trigger] field@[k])@.len() == dimension.height,
                forall|k: int, j: int|
                    0 <= k < x && 0 <= j < dimension.height ==> (#[trigger] field@[k]@[j])
                        == Pixel::null_spec(),
                column@.len() == dimension.height,
                forall|j: int| 0 <= j < dimension.height ==> column@[j] == Pixel::null_spec(),
            decreases dimension.width - x,
        {
            field.push(column.clone());
            proof {
                assert(field@[x as int]@ =~= column@);
            }
            x = x + 1;
        }
        let r = Field { field, dimension };
        proof {
            assert forall|i: int| 0 <= i < r.cells().len() implies r.cells()[i]
                == Pixel::null_spec() by {
                let w = dimension.width as int;
                assert(0 <= i % w < w && 0 <= i / w < dimension.height) by (nonlinear_arith)
                    requires
                        0 <= i < dimension.width * dimension.height,
                        w == dimension.width,
                        0 < w,
                ;
            }
        }
        r
    }

    /// Reads the cell at column `x`, row `y`.
    pub fn get(&self, x: usize, y: usize) -> (p: Pixel)
        requires
            self.wf(),
            x < self.dimension.width,
            y < self.dimension.height,
        ensures
            p == self.field@[x as int]@[y as int],
    {
        self.field[x][y]
    }

    /// Writes the cell at column `x`, row `y`, leaving the rest.
    pub fn set(&mut self, x: usize, y: usize, pixel: Pixel)
        requires
            old(self).wf(),
            x < old(self).dimension.width,
            y < old(self).dimension.height,
        ensures
            final(self).wf(),
            final(self).dimension == old(self).dimension,
            final(self).field@[x as int]@ == old(self).field@[x as int]@.update(y as int, pixel),
            forall|k: int|
                0 <= k < old(self).dimension.width && k != x ==> (#[trigger] final(self).field@[k])@
                    == old(self).field@[k]@,
    {
        let column = &mut self.field[x];
        column[y] = pixel;
    }

    /// Every cell of the grid, in a fresh uniformly random order: a
    /// permutation holding each cell exactly once.
    pub fn serialise(&self) -> (r: Vec<Pixel>)
        requires
            self.wf(),
        ensures
            r@.to_multiset() == self.cells().to_multiset(),
            r@.len() == self.dimension.width * self.dimension.height,
    {
        let width = self.dimension.width;
        let pixels = self.dimension.width * self.dimension.height;
        let mut serialised: Vec<Pixel> = Vec::new();
        let mut index: usize = 0;
        while index < pixels
            invariant
                self.wf(),
                width == self.dimension.width,
                pixels == self.dimension.width * self.dimension.height,
                index <= pixels,
                serialised@.len() == index,
                forall|i: int| 0 <= i < index ==> serialised@[i] == self.cells()[i],
            decreases pixels - index,
        {
            proof {
                assert(0 < width && (index as int) / (width as int) < self.dimension.height)
                    by (nonlinear_arith)
                    requires
                        0 <= index < width * self.dimension.height,
                        width == self.dimension.width,
                ;
            }
            let x = index % width;
            let y = index / width;
            serialised.push(self.field[x][y]);
            index = index + 1;
        }
        proof {
            assert(serialised@ =~= self.cells());
        }
        let mut rng = fresh_rng();
        shuffle_pixels(&mut serialised, &mut rng);
        serialised
    }

    /// An iterator over the grid positions, in serialisation order.
    pub fn coordinates_iterator(&self) -> (r: FieldCoordinatesIterator)
        ensures
            r.dimension == self.dimension,
            r.index == 0,
    {
        FieldCoordinatesIterator::new(self)
    }
}

/// The field filled from a resized frame: cell `(x, y)` takes the frame's
/// sample there, placed at the canvas position `(x, y)` moved by
/// `offset`.
pub fn field_from_frame(frame: &Frame, offset: Coordinate) -> (r: Field)
    requires
        frame.wf(),
        offset.x + frame.width <= usize::MAX,
        offset.y + frame.height <= usize::MAX,
    ensures
        r.wf(),
        r.dimension == (Dimension { width: frame.width, height: frame.height }),
        forall|x: int, y: int|
            0 <= x < frame.width && 0 <= y < frame.height ==> (#[trigger] r.field@[x]@[y])
                == (Pixel {
                coordinate: Coordinate { x: (x + offset.x) as usize, y: (y + offset.y) as usize },
                color: frame.cell(x, y),
            }),
{
    let mut field: Vec<Vec<Pixel>> = Vec::new();
    let mut x: usize = 0;
    while x < frame.width
        invariant
            frame.wf(),
            offset.x + frame.width <= usize::MAX,
            offset.y + frame.height <= usize::MAX,
            x <= frame.width,
            field@.len() == x,
            forall|k: int| 0 <= k < x ==> (#[trigger] field@[k])@.len() == frame.height,
            forall|k: int, j: int|
                0 <= k < x && 0 <= j < frame.height ==> (#[trigger] field@[k]@[j]) == (Pixel {
                    coordinate: Coordinate {
                        x: (k + offset.x) as usize,
                        y: (j + offset.y) as usize,
                    },
                    color: frame.cell(k, j),
                }),
        decreases frame.width - x,
    {
        let mut column: Vec<Pixel> = Vec::new();
        let mut y: usize = 0;
        while y < frame.height
            invariant
                frame.wf(),
                offset.x + frame.width <= usize::MAX,
                offset.y + frame.height <= usize::MAX,
                x < frame.width,
                y <= frame.height,
                column@.len() == y,
                forall|j: int|
                    0 <= j < y ==> (#[trigger] column@[j]) == (Pixel {
                        coordinate: Coordinate {
                            x: (x + offset.x) as usize,
                            y: (j + offset.y) as usize,
                        },
                        color: frame.cell(x as int, j),
                    }),
            decreases frame.height - y,
        {
            let p = Pixel {
                coordinate: Coordinate { x: x + offset.x, y: y + offset.y },
                color: frame.get(x, y),
            };
            column.push(p);
            y = y + 1;
        }
        field.push(column);
        x = x + 1;
    }
    Field { field, dimension: Dimension { width: frame.width, height: frame.height } }
}

/// The grid position at flat index `i` of a `d`-sized field.
pub open spec fn grid_pos(d: Dimension, i: int) -> (usize, usize) {
    ((i % (d.width as int)) as usize, (i / (d.width as int)) as usize)
}

/// Walks the `(x, y)` positions of a field in serialisation order.
pub struct FieldCoordinatesIterator {
    pub dimension: Dimension,
    pub index: usize,
}

impl FieldCoordinatesIterator {
    /// An iterator at the first position of `field`.
    pub fn new(field: &Field) -> (r: FieldCoordinatesIterator)
        ensures
            r.dimension == field.dimension,
            r.index == 0,
    {
        FieldCoordinatesIterator { dimension: field.dimension, index: 0 }
    }

    /// The next grid position: `(index % width, index / width)` while any
    /// are left, then `None` forever.
    pub fn next(&mut self) -> (r: Option<(usize, usize)>)
        requires
            old(self).dimension.width * old(self).dimension.height <= usize::MAX,
            old(self).index <= old(self).dimension.width * old(self).dimension.height,
        ensures
            final(self).dimension == old(self).dimension,
            old(self).index == old(self).dimension.width * old(self).dimension.height ==> r is None
                && final(self).index == old(self).index,
            old(self).index < old(self).dimension.width * old(self).dimension.height
                ==> (final(self).index == old(self).index + 1) && r == Some(
                grid_pos(old(self).dimension, old(self).index as int),
            ),
    {
        let pixels = self.dimension.width * self.dimension.height;
        if self.index == pixels {
            return None;
        }
        proof {
            assert(0 < self.dimension.width) by (nonlinear_arith)
                requires
                    self.index < self.dimension.width * self.dimension.height,
                    0 <= self.index,
            ;
        }
        let x = self.index % self.dimension.width;
        let y = self.index / self.dimension.width;
        self.index = self.index + 1;
        Some((x, y))
    }
}

} // verus!
