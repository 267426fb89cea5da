use vstd::prelude::*;

verus! {

/// The size of an output raster in character cells.
///
/// Both dimensions are positive and their product (the pixel count) fits in
/// a `usize`; a `Size` never changes once built.
pub struct Size {
    width: usize,
    height: usize,
    size: usize,
}

impl Size {
    pub closed spec fn spec_width(&self) -> nat {
        self.width as nat
    }

    pub closed spec fn spec_height(&self) -> nat {
        self.height as nat
    }

    #[verifier::type_invariant]
    closed spec fn inv(&self) -> bool {
        &&& self.width > 0
        &&& self.height > 0
        &&& self.size == self.width * self.height
    }

    /// A raster of `width` columns and `height` rows.
    pub fn new(width: usize, height: usize) -> (r: Size)
        requires
            width > 0,
            height > 0,
            width * height <= usize::MAX,
        ensures
            r.spec_width() == width,
            r.spec_height() == height,
    {
        Size { width, height, size: width * height }
    }

    pub fn width(&self) -> (r: usize)
        ensures
            r == self.spec_width(),
            r > 0,
    {
        proof {
            use_type_invariant(self);
        }
        self.width
    }

    pub fn height(&self) -> (r: usize)
        ensures
            r == self.spec_height(),
            r > 0,
    {
        proof {
            use_type_invariant(self);
        }
        self.height
    }

    /// The number of pixels, `width * height`.
    pub fn total(&self) -> (r: usize)
        ensures
            r == self.spec_width() * self.spec_height(),
    {
        proof {
            use_type_invariant(self);
        }
        self.size
    }

    /// The column and the row of the pixel at raster index `pos` (row-major).
    pub fn pixel_cell(&self, pos: usize) -> (r: (usize, usize))
        requires
            pos < self.spec_width() * self.spec_height(),
        ensures
            r.0 == pos as nat % self.spec_width(),
            r.1 == pos as nat / self.spec_width(),
            r.0 < self.spec_width(),
            r.1 < self.spec_height(),
    {
        proof {
            use_type_invariant(self);
            lemma_cell_center_inside(self.spec_width(), self.spec_height(), pos as nat);
        }
        (pos % self.width, pos / self.width)
    }
}

/// Every pixel index of a `width` by `height` raster lies in a cell of the
/// raster, and the centre of that cell, at `(col + 1/2) / width` and
/// `(row + 1/2) / height` of the way across, is strictly inside the open unit
/// interval on both axes: it never falls on an edge of the mapped region.
pub proof fn lemma_cell_center_inside(width: nat, height: nat, pos: nat)
    requires
        width > 0,
        height > 0,
        pos < width * height,
    ensures
        pos % width < width,
        pos / width < height,
        0 < 2 * (pos % width) + 1 < 2 * width,
        0 < 2 * (pos / width) + 1 < 2 * height,
{
    let q = pos / width;
    let m = pos % width;
    vstd::arithmetic::div_mod::lemma_fundamental_div_mod(pos as int, width as int);
    assert(q < height) by (nonlinear_arith)
        requires
            pos == width * q + m,
            m >= 0,
            pos < width * height,
            width > 0,
    {
    }
}

} // verus!
