//! The element types that frames carry.
//!
//! An element is a single scalar, a one-dimensional dense array, a
//! two-dimensional dense array, or a packed pixel plane. Floating-point
//! scalars are carried as their 32-bit IEEE-754 bit patterns: the runtime
//! never computes with them, it only moves them, so the bit pattern is the
//! whole value as far as the pipeline is concerned.

use vstd::prelude::*;

verus! {

/// A packed pixel: red, green, blue and alpha, one byte each, in that order.
#[derive(Clone, Copy, PartialEq, Eq, Structural, Debug)]
pub struct RGBA8 {
    pub r: u8,
    pub g: u8,
    pub b: u8,
    pub a: u8,
}

/// The bit pattern of a 32-bit IEEE-754 floating-point number.
#[derive(Clone, Copy, PartialEq, Eq, Structural, Debug)]
pub struct F32Bits {
    pub bits: u32,
}

/// A one-dimensional dense array of elements.
#[derive(Debug, Clone)]
pub struct Array1<T> {
    /// The elements, in index order.
    pub data: Vec<T>,
}

impl<T> View for Array1<T> {
    type V = Seq<T>;

    open spec fn view(&self) -> Seq<T> {
        self.data@
    }
}

impl<T> Array1<T> {
    /// Wraps a vector of elements as a one-dimensional array.
    pub fn new(data: Vec<T>) -> (r: Self)
        ensures
            r@ == data@,
    {
        Array1 { data }
    }

    /// The number of elements.
    pub fn len(&self) -> (r: usize)
        ensures
            r == self@.len(),
    {
        self.data.len()
    }
}

impl<T: Copy> Array1<T> {
    /// An element-for-element copy of the array.
    pub fn dup(&self) -> (r: Self)
        ensures
            r@ == self@,
    {
        let n = self.data.len();
        let mut data: Vec<T> = Vec::new();
        let mut i: usize = 0;
        while i < n
            invariant
                i <= n == self@.len(),
                data@ == self@.subrange(0, i as int),
            decreases n - i,
        {
            data.push(self.data[i]);
            i = i + 1;
            proof {
                assert(data@ =~= self@.subrange(0, i as int));
            }
        }
        proof {
            assert(data@ =~= self@);
        }
        Array1 { data }
    }
}

/// The mathematical value of a two-dimensional array: its shape and its
/// cells in row-major order.
pub struct Array2View<T> {
    pub rows: nat,
    pub cols: nat,
    pub cells: Seq<T>,
}

/// A two-dimensional dense array of elements, stored in row-major order.
/// The cell count always equals `rows * cols`.
#[derive(Debug)]
pub struct Array2<T> {
    rows: usize,
    cols: usize,
    data: Vec<T>,
}

impl<T> View for Array2<T> {
    type V = Array2View<T>;

    closed spec fn view(&self) -> Array2View<T> {
        Array2View { rows: self.rows as nat, cols: self.cols as nat, cells: self.data@ }
    }
}

impl<T> Array2<T> {
    #[verifier::type_invariant]
    spec fn shape_bound(&self) -> bool {
        self.data@.len() == (self.rows as nat) * (self.cols as nat)
    }

    /// Wraps a vector of `rows * cols` cells, given in row-major order,
    /// as a two-dimensional array.
    pub fn new(rows: usize, cols: usize, data: Vec<T>) -> (r: Self)
        requires
            data@.len() == (rows as nat) * (cols as nat),
        ensures
            r@ == (Array2View { rows: rows as nat, cols: cols as nat, cells: data@ }),
    {
        Array2 { rows, cols, data }
    }

    /// The number of rows.
    pub fn rows(&self) -> (r: usize)
        ensures
            r == self@.rows,
    {
        self.rows
    }

    /// The number of columns.
    pub fn cols(&self) -> (r: usize)
        ensures
            r == self@.cols,
    {
        self.cols
    }

    /// The cells, in row-major order.
    pub fn cells(&self) -> (r: &Vec<T>)
        ensures
            r@ == self@.cells,
    {
        &self.data
    }
}

impl<T: Copy> Array2<T> {
    /// A cell-for-cell copy of the array, with the same shape.
    pub fn dup(&self) -> (r: Self)
        ensures
            r@ == self@,
    {
        proof {
            use_type_invariant(self);
        }
        let n = self.data.len();
        let mut data: Vec<T> = Vec::new();
        let mut i: usize = 0;
        while i < n
            invariant
                i <= n == self@.cells.len(),
                data@ == self@.cells.subrange(0, i as int),
            decreases n - i,
        {
            data.push(self.data[i]);
            i = i + 1;
            proof {
                assert(data@ =~= self@.cells.subrange(0, i as int));
            }
        }
        proof {
            assert(data@ =~= self@.cells);
        }
        Array2 { rows: self.rows, cols: self.cols, data }
    }
}

} // verus!
