//! Pixel rasters: their size, their cells and the row-major buffer behind a
//! window.

use vstd::prelude::*;
use vstd::std_specs::cmp::PartialEqSpecImpl;
use vstd::std_specs::ops::AddSpecImpl;

verus! {

/// Width and height of a pixel raster.
#[derive(Debug, Clone, Copy)]
pub struct Size {
    pub w: usize,
    pub h: usize,
}

impl Size {
    /// A raster of `w` columns and `h` rows.
    pub fn new(w: usize, h: usize) -> (r: Size)
        ensures
            r.w == w,
            r.h == h,
    {
        Size { w, h }
    }

    /// Number of cells, as a mathematical integer.
    pub open spec fn cells(self) -> nat {
        (self.w * self.h) as nat
    }

    /// Number of cells of the raster.
    pub fn area(&self) -> (r: usize)
        requires
            self.cells() <= usize::MAX,
        ensures
            r == self.cells(),
    {
        assert(self.h * self.w == self.w * self.h) by (nonlinear_arith);
        self.h * self.w
    }

    /// Number of cells, when it fits the machine word.
    pub fn checked_area(&self) -> (r: Option<usize>)
        ensures
            r == (if self.cells() <= usize::MAX {
                Some(self.cells() as usize)
            } else {
                None
            }),
    {
        assert(self.h * self.w == self.w * self.h) by (nonlinear_arith);
        self.h.checked_mul(self.w)
    }
}

impl PartialEq for Size {
    fn eq(&self, other: &Self) -> (r: bool) {
        self.w == other.w && self.h == other.h
    }
}

impl PartialEqSpecImpl for Size {
    open spec fn obeys_eq_spec() -> bool {
        true
    }

    open spec fn eq_spec(&self, other: &Self) -> bool {
        self.w == other.w && self.h == other.h
    }
}

/// A cell of a raster, by column and row.
#[derive(Debug, Clone, Copy, PartialEq, Eq, Structural)]
pub struct Coord2 {
    pub x: usize,
    pub y: usize,
}

impl Coord2 {
    /// The cell in column `x` of row `y`.
    pub fn new(x: usize, y: usize) -> (r: Coord2)
        ensures
            r.x == x,
            r.y == y,
    {
        Coord2 { x, y }
    }
}

impl core::ops::Add for Coord2 {
    type Output = Coord2;

    fn add(self, other: Self) -> (r: Coord2) {
        Coord2 { x: self.x + other.x, y: self.y + other.y }
    }
}

impl AddSpecImpl for Coord2 {
    open spec fn obeys_add_spec() -> bool {
        true
    }

    open spec fn add_req(self, other: Self) -> bool {
        self.x + other.x <= usize::MAX && self.y + other.y <= usize::MAX
    }

    open spec fn add_spec(self, other: Self) -> Coord2 {
        Coord2 { x: (self.x + other.x) as usize, y: (self.y + other.y) as usize }
    }
}

/// The row-major pixel buffer that is shown in a window: one packed colour
/// per cell.
pub struct WindowBuffer {
    pub size: Size,
    pub content: Vec<u32>,
}

impl WindowBuffer {
    /// The buffer holds exactly one entry per cell of its size.
    pub open spec fn wf(&self) -> bool {
        self.content@.len() == self.size.cells()
    }

    /// A buffer of the given size, every cell zero.
    pub fn new(size: Size) -> (r: WindowBuffer)
        requires
            size.cells() <= usize::MAX,
        ensures
            r.wf(),
            r.size == size,
            forall|i: int| 0 <= i < r.content@.len() ==> r.content@[i] == 0,
    {
        let n = size.area();
        let mut content: Vec<u32> = Vec::new();
        content.resize(n, 0);
        WindowBuffer { size, content }
    }

    /// Takes the new size. Cells that stay within the new length keep their
    /// place in the row-major order, and cells that are added hold zero.
    pub fn resize(&mut self, new_size: Size)
        requires
            new_size.cells() <= usize::MAX,
        ensures
            final(self).wf(),
            final(self).size == new_size,
            forall|i: int|
                0 <= i < final(self).content@.len() ==> final(self).content@[i] == (if i < old(
                    self,
                ).content@.len() {
                    old(self).content@[i]
                } else {
                    0
                }),
    {
        self.size = new_size;
        let n = self.size.area();
        self.content.resize(n, 0);
    }

    /// The cell that the `i`-th entry of the buffer stands for.
    pub fn get_coord2(&self, i: usize) -> (r: Coord2)
        requires
            self.size.w > 0,
        ensures
            r.x == i % self.size.w,
            r.y == i / self.size.w,
    {
        Coord2 { x: i % self.size.w, y: i / self.size.w }
    }

    /// The place of a cell in the buffer.
    pub fn get_index(&self, coord2: Coord2) -> (r: usize)
        requires
            coord2.y * self.size.w + coord2.x <= usize::MAX,
        ensures
            r == coord2.y * self.size.w + coord2.x,
    {
        assert(coord2.y * self.size.w <= coord2.y * self.size.w + coord2.x);
        coord2.y * self.size.w + coord2.x
    }
}

/// Going from an index to its cell and back gives the index again.
pub proof fn lemma_index_of_coord(w: int, i: int)
    requires
        w > 0,
        i >= 0,
    ensures
        (i / w) * w + i % w == i,
        0 <= i % w < w,
{
    vstd::arithmetic::div_mod::lemma_fundamental_div_mod(i, w);
    vstd::arithmetic::div_mod::lemma_mod_bound(i, w);
    assert((i / w) * w == w * (i / w)) by (nonlinear_arith);
}

/// Going from a cell inside a row to its index and back gives the cell again.
pub proof fn lemma_coord_of_index(w: int, x: int, y: int)
    requires
        0 <= x < w,
        y >= 0,
    ensures
        (y * w + x) % w == x,
        (y * w + x) / w == y,
{
    vstd::arithmetic::div_mod::lemma_fundamental_div_mod_converse(y * w + x, w, y, x);
}

} // verus!
