//! The plain parts of the configuration record: which producer paints
//! the source raster, and where an image file comes from. Reading and
//! parsing the configuration file is the embedding program's concern.

use vstd::prelude::*;

verus! {

/// The image producer's configuration: the path of the file to decode.
#[derive(Debug)]
pub struct Image {
    pub path: String,
}

/// Which producer supplies the source raster.
#[derive(Clone, Copy, Debug, PartialEq, Eq, Structural)]
pub enum Style {
    Mandelbrot,
    Julia,
    Image,
}

} // verus!
