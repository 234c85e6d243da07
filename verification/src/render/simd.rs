//! Dense row-major matrices over scalar types.

use vstd::prelude::*;
use vstd::std_specs::convert::FromSpec;

verus! {

/// Scalar types with a zero and a one: every copyable type that converts
/// from `u8`, which includes `i32`, `f32` and `f64`.
pub trait Scalar: Sized + Copy {
    /// Whether the type's conversion from `u8` is specified.
    spec fn obeys_scalar() -> bool;

    spec fn zero_spec() -> Self;

    spec fn one_spec() -> Self;

    fn zero() -> (r: Self)
        ensures
            Self::obeys_scalar() ==> r == Self::zero_spec(),
    ;

    fn one() -> (r: Self)
        ensures
            Self::obeys_scalar() ==> r == Self::one_spec(),
    ;
}

impl<T: Copy + From<u8>> Scalar for T {
    open spec fn obeys_scalar() -> bool {
        <T as FromSpec<u8>>::obeys_from_spec()
    }

    open spec fn zero_spec() -> T {
        <T as FromSpec<u8>>::from_spec(0u8)
    }

    open spec fn one_spec() -> T {
        <T as FromSpec<u8>>::from_spec(1u8)
    }

    /// The value converted from `0u8`.
    fn zero() -> (r: T) {
        T::from(0u8)
    }

    /// The value converted from `1u8`.
    fn one() -> (r: T) {
        T::from(1u8)
    }
}

/// A matrix of `rows * cols` elements stored row by row.
#[derive(Debug, Clone, PartialEq)]
pub struct Matrix<T> {
    data: Vec<T>,
    rows: usize,
    cols: usize,
}

impl<T> Matrix<T> {
    pub closed spec fn spec_rows(&self) -> usize {
        self.rows
    }

    pub closed spec fn spec_cols(&self) -> usize {
        self.cols
    }

    /// The elements, row by row.
    pub closed spec fn elems(&self) -> Seq<T> {
        self.data@
    }

    /// The element at `(row, col)`: the one at flat position `row * cols + col`.
    pub open spec fn at(&self, row: int, col: int) -> T {
        self.elems()[row * self.spec_cols() + col]
    }
}

impl<T: Scalar> Matrix<T> {
    /// A `rows` by `cols` matrix filled with zero.
    pub fn new(rows: usize, cols: usize) -> (r: Self)
        requires
            rows * cols <= usize::MAX,
        ensures
            r.spec_rows() == rows,
            r.spec_cols() == cols,
            r.elems().len() == rows * cols,
            forall|i: int| 0 <= i < r.elems().len() ==> #[trigger] r.elems()[i] == r.elems()[0],
            T::obeys_scalar() ==> forall|i: int| 0 <= i < r.elems().len() ==> r.elems()[i] == T::zero_spec(),
    {
        let z = T::zero();
        let n = rows * cols;
        let mut data: Vec<T> = Vec::with_capacity(n);
        let mut i: usize = 0;
        while i < n
            invariant
                i <= n,
                data@.len() == i,
                forall|k: int| 0 <= k < i ==> #[trigger] data@[k] == z,
            decreases n - i,
        {
            data.push(z);
            i = i + 1;
        }
        Matrix { data, rows, cols }
    }

    /// A `rows` by `cols` matrix with the given elements, row by row. The
    /// number of elements must be `rows * cols`.
    pub fn from_flat(rows: usize, cols: usize, data: Vec<T>) -> (r: Self)
        requires
            rows * cols <= usize::MAX,
            data@.len() == rows * cols,
        ensures
            r.spec_rows() == rows,
            r.spec_cols() == cols,
            r.elems() == data@,
    {
        Matrix { data, rows, cols }
    }

    /// The `n` by `n` identity: one on the diagonal, zero elsewhere.
    pub fn identity(n: usize) -> (r: Self)
        requires
            n * n <= usize::MAX,
        ensures
            r.spec_rows() == n,
            r.spec_cols() == n,
            r.elems().len() == n * n,
            forall|i: int, j: int| 0 <= i < n && 0 <= j < n && i != j ==> #[trigger] r.at(i, j) == r.at(0, 1),
            forall|i: int| 0 <= i < n ==> #[trigger] r.at(i, i) == r.at(0, 0),
            T::obeys_scalar() ==> forall|i: int, j: int|
                0 <= i < n && 0 <= j < n ==> #[trigger] r.at(i, j) == if i == j {
                    T::one_spec()
                } else {
                    T::zero_spec()
                },
    {
        let zero = T::zero();
        let one = T::one();
        let mut m = Matrix { data: Vec::new(), rows: n, cols: n };
        let mut k: usize = 0;
        while k < n * n
            invariant
                k <= n * n,
                n * n <= usize::MAX,
                m.rows == n,
                m.cols == n,
                m.data@.len() == k,
                forall|j: int| 0 <= j < k ==> #[trigger] m.data@[j] == zero,
            decreases n * n - k,
        {
            m.data.push(zero);
            k = k + 1;
        }
        assert forall|a: int, b: int| 0 <= a < n && 0 <= b < n implies #[trigger] (a * n + b) < n * n by {
            assert(a * n + b < n * n) by (nonlinear_arith)
                requires
                    0 <= a < n,
                    0 <= b < n,
            ;
        }
        let mut i: usize = 0;
        while i < n
            invariant
                i <= n,
                n * n <= usize::MAX,
                forall|a: int, b: int| 0 <= a < n && 0 <= b < n ==> #[trigger] (a * n + b) < n * n,
                m.rows == n,
                m.cols == n,
                m.data@.len() == n * n,
                forall|a: int, b: int|
                    0 <= a < n && 0 <= b < n ==> #[trigger] m.data@[a * n + b] == if a == b && a < i {
                        one
                    } else {
                        zero
                    },
            decreases n - i,
        {
            assert(i * n + i < n * n) by (nonlinear_arith)
                requires
                    i < n,
            ;
            let ghost before = m.data@;
            m.data.set(i * n + i, one);
            assert forall|a: int, b: int| 0 <= a < n && 0 <= b < n implies #[trigger] m.data@[a * n + b]
                == if a == b && a < i + 1 {
                one
            } else {
                zero
            } by {
                if a * n + b == i * n + i {
                    assert(a == i && b == i) by (nonlinear_arith)
                        requires
                            a * n + b == i * n + i,
                            0 <= a < n,
                            0 <= b < n,
                            0 <= i < n,
                    ;
                } else {
                    assert(a * n + b < n * n);
                    assert(m.data@[a * n + b] == before[a * n + b]);
                }
            }
            i = i + 1;
        }
        proof {
            if n > 1 {
                assert(0 * n + 1 < n * n);
                assert(m.data@[0 * n + 1] == zero);
            }
            assert forall|i: int, j: int| 0 <= i < n && 0 <= j < n implies #[trigger] m.at(i, j) == m.data@[i * n + j] by {
            }
        }
        m
    }

    /// The number of rows and of columns.
    pub fn dims(&self) -> (r: (usize, usize))
        ensures
            r == (self.spec_rows(), self.spec_cols()),
    {
        (self.rows, self.cols)
    }

    /// The element at `(row, col)`, read at flat position `row * cols + col`,
    /// which must lie inside the data.
    pub fn get(&self, row: usize, col: usize) -> (r: T)
        requires
            row * self.spec_cols() + col < self.elems().len(),
        ensures
            r == self.at(row as int, col as int),
    {
        let len = self.data.len();
        assert(row * self.cols <= row * self.cols + col < len);
        self.data[row * self.cols + col]
    }

    /// The elements, row by row.
    pub fn data(&self) -> (r: &[T])
        ensures
            r@ == self.elems(),
    {
        self.data.as_slice()
    }
}

impl<T: Scalar> std::ops::Index<(usize, usize)> for Matrix<T> {
    type Output = T;

    /// The element at `(row, col)`, as [`Matrix::get`] reads it.
    fn index(&self, idx: (usize, usize)) -> (r: &T)
        ensures
            *r == self.at(idx.0 as int, idx.1 as int),
    {
        assert(idx.0 * self.cols + idx.1 < self.data@.len());
        let len = self.data.len();
        assert(idx.0 * self.cols <= idx.0 * self.cols + idx.1 < len);
        &self.data[idx.0 * self.cols + idx.1]
    }
}

impl<T: Scalar> vstd::std_specs::core::IndexSpecImpl<(usize, usize)> for Matrix<T> {
    open spec fn index_req(&self, idx: &(usize, usize)) -> bool {
        idx.0 * self.spec_cols() + idx.1 < self.elems().len()
    }
}

} // verus!
