//! Matrices of [`Fixed`] scalars with a size known at compile time.
//!
//! Sums, differences and scalings act on each entry with the saturating
//! scalar operations. An entry of a product is the exact sum of the products
//! of the numerators, rounded down once.

use crate::fixed::clamp_to_raw;
use crate::fixed::div_floor;
use crate::fixed::Fixed;
use crate::fixed::SCALE;
use crate::matrix::vector::wide_mul;
use vstd::prelude::*;

verus! {

/// A matrix with `ROWS` rows and `COLS` columns, stored column by column.
#[derive(Clone, Copy, Debug, PartialEq, Eq)]
pub struct Matrix<const ROWS: usize, const COLS: usize> {
    pub data: [[Fixed; ROWS]; COLS],
}

/// The exact sum of the products of the numerators of the first `n` entries
/// of row `i` of `a` with the first `n` entries of column `j` of `b`.
pub open spec fn product_sum<const M: usize, const N: usize, const K: usize>(
    a: Matrix<M, N>,
    b: Matrix<N, K>,
    i: int,
    j: int,
    n: nat,
) -> int
    decreases n,
{
    if n == 0 {
        0
    } else {
        product_sum(a, b, i, j, (n - 1) as nat) + a.entry(i, n - 1)@ * b.entry(n - 1, j)@
    }
}

impl<const ROWS: usize, const COLS: usize> Matrix<ROWS, COLS> {
    /// The entry in row `r` and column `c`.
    pub open spec fn entry(&self, r: int, c: int) -> Fixed {
        self.data[c][r]
    }

    /// The matrix with the given columns.
    pub fn new(data: [[Fixed; ROWS]; COLS]) -> (m: Matrix<ROWS, COLS>)
        ensures
            m.data == data,
    {
        Matrix { data }
    }

    /// The entry in row `r` and column `c`.
    pub fn get(&self, r: usize, c: usize) -> (v: Fixed)
        requires
            r < ROWS,
            c < COLS,
        ensures
            v == self.entry(r as int, c as int),
    {
        self.data[c][r]
    }

    /// The entrywise sum.
    pub fn add(&self, other: &Matrix<ROWS, COLS>) -> (out: Matrix<ROWS, COLS>)
        ensures
            forall|r: int, c: int|
                0 <= r < ROWS && 0 <= c < COLS ==> #[trigger] out.entry(r, c) == self.entry(r, c).spec_add(other.entry(r, c)),
    {
        let mut result: [[Fixed; ROWS]; COLS] = [[Fixed::zero(); ROWS]; COLS];
        let mut c: usize = 0;
        while c < COLS
            invariant
                c <= COLS,
                forall|i: int, j: int|
                    0 <= i < ROWS && 0 <= j < c ==> #[trigger] result[j][i] == self.entry(i, j).spec_add(other.entry(i, j)),
            decreases COLS - c,
        {
            let mut column: [Fixed; ROWS] = result[c];
            let mut r: usize = 0;
            while r < ROWS
                invariant
                    r <= ROWS,
                    c < COLS,
                    forall|i: int| 0 <= i < r ==> #[trigger] column[i] == self.entry(i, c as int).spec_add(other.entry(i, c as int)),
                decreases ROWS - r,
            {
                column[r] = self.data[c][r].add(other.data[c][r]);
                r += 1;
            }
            result[c] = column;
            c += 1;
        }
        Matrix { data: result }
    }

    /// The entrywise difference.
    pub fn sub(&self, other: &Matrix<ROWS, COLS>) -> (out: Matrix<ROWS, COLS>)
        ensures
            forall|r: int, c: int|
                0 <= r < ROWS && 0 <= c < COLS ==> #[trigger] out.entry(r, c) == self.entry(r, c).spec_sub(other.entry(r, c)),
    {
        let mut result: [[Fixed; ROWS]; COLS] = [[Fixed::zero(); ROWS]; COLS];
        let mut c: usize = 0;
        while c < COLS
            invariant
                c <= COLS,
                forall|i: int, j: int|
                    0 <= i < ROWS && 0 <= j < c ==> #[trigger] result[j][i] == self.entry(i, j).spec_sub(other.entry(i, j)),
            decreases COLS - c,
        {
            let mut column: [Fixed; ROWS] = result[c];
            let mut r: usize = 0;
            while r < ROWS
                invariant
                    r <= ROWS,
                    c < COLS,
                    forall|i: int| 0 <= i < r ==> #[trigger] column[i] == self.entry(i, c as int).spec_sub(other.entry(i, c as int)),
                decreases ROWS - r,
            {
                column[r] = self.data[c][r].sub(other.data[c][r]);
                r += 1;
            }
            result[c] = column;
            c += 1;
        }
        Matrix { data: result }
    }

    /// Each entry multiplied by `scalar`.
    pub fn scale(&self, scalar: Fixed) -> (out: Matrix<ROWS, COLS>)
        ensures
            forall|r: int, c: int|
                0 <= r < ROWS && 0 <= c < COLS ==> #[trigger] out.entry(r, c) == self.entry(r, c).spec_mul(scalar),
    {
        let mut result: [[Fixed; ROWS]; COLS] = [[Fixed::zero(); ROWS]; COLS];
        let mut c: usize = 0;
        while c < COLS
            invariant
                c <= COLS,
                forall|i: int, j: int|
                    0 <= i < ROWS && 0 <= j < c ==> #[trigger] result[j][i] == self.entry(i, j).spec_mul(scalar),
            decreases COLS - c,
        {
            let mut column: [Fixed; ROWS] = result[c];
            let mut r: usize = 0;
            while r < ROWS
                invariant
                    r <= ROWS,
                    c < COLS,
                    forall|i: int| 0 <= i < r ==> #[trigger] column[i] == self.entry(i, c as int).spec_mul(scalar),
                decreases ROWS - r,
            {
                column[r] = self.data[c][r].mul(scalar);
                r += 1;
            }
            result[c] = column;
            c += 1;
        }
        Matrix { data: result }
    }

    /// The matrix mirrored at its diagonal.
    pub fn transpose(&self) -> (out: Matrix<COLS, ROWS>)
        ensures
            forall|r: int, c: int|
                0 <= r < COLS && 0 <= c < ROWS ==> #[trigger] out.entry(r, c) == self.entry(c, r),
    {
        let mut result: [[Fixed; COLS]; ROWS] = [[Fixed::zero(); COLS]; ROWS];
        let mut c: usize = 0;
        while c < ROWS
            invariant
                c <= ROWS,
                forall|i: int, j: int|
                    0 <= i < COLS && 0 <= j < c ==> #[trigger] result[j][i] == self.entry(j, i),
            decreases ROWS - c,
        {
            let mut column: [Fixed; COLS] = result[c];
            let mut r: usize = 0;
            while r < COLS
                invariant
                    r <= COLS,
                    c < ROWS,
                    forall|i: int| 0 <= i < r ==> #[trigger] column[i] == self.entry(c as int, i),
                decreases COLS - r,
            {
                column[r] = self.data[r][c];
                r += 1;
            }
            result[c] = column;
            c += 1;
        }
        Matrix { data: result }
    }

    /// The entry in row `i` and column `j` of the product with `other`.
    pub fn product_entry<const K: usize>(&self, other: &Matrix<COLS, K>, i: usize, j: usize) -> (v:
        Fixed)
        requires
            i < ROWS,
            j < K,
        ensures
            v == Fixed::of(product_sum(*self, *other, i as int, j as int, COLS as nat) / (SCALE as int)),
    {
        let mut sum: i128 = 0;
        let mut k: usize = 0;
        while k < COLS
            invariant
                k <= COLS,
                i < ROWS,
                j < K,
                sum == product_sum(*self, *other, i as int, j as int, k as nat),
                -(k * 0x4000_0000_0000_0000) <= sum <= k * 0x4000_0000_0000_0000,
            decreases COLS - k,
        {
            sum = sum + wide_mul(self.data[k][i].raw, other.data[j][k].raw);
            k += 1;
        }
        Fixed { raw: clamp_to_raw(div_floor(sum, 65536)) }
    }

    /// The matrix product.
    pub fn multiply<const K: usize>(&self, other: Matrix<COLS, K>) -> (out: Matrix<ROWS, K>)
        ensures
            forall|r: int, c: int|
                0 <= r < ROWS && 0 <= c < K ==> #[trigger] out.entry(r, c) == Fixed::of(
                    product_sum(*self, other, r, c, COLS as nat) / (SCALE as int),
                ),
    {
        let mut result: [[Fixed; ROWS]; K] = [[Fixed::zero(); ROWS]; K];
        let mut c: usize = 0;
        while c < K
            invariant
                c <= K,
                forall|i: int, j: int|
                    0 <= i < ROWS && 0 <= j < c ==> #[trigger] result[j][i] == Fixed::of(
                        product_sum(*self, other, i, j, COLS as nat) / (SCALE as int),
                    ),
            decreases K - c,
        {
            let mut column: [Fixed; ROWS] = result[c];
            let mut r: usize = 0;
            while r < ROWS
                invariant
                    r <= ROWS,
                    c < K,
                    forall|i: int|
                        0 <= i < r ==> #[trigger] column[i] == Fixed::of(
                            product_sum(*self, other, i, c as int, COLS as nat) / (SCALE as int),
                        ),
                decreases ROWS - r,
            {
                column[r] = self.product_entry(&other, r, c);
                r += 1;
            }
            result[c] = column;
            c += 1;
        }
        Matrix { data: result }
    }
}

impl<const DIM: usize> Matrix<DIM, DIM> {
    /// The entry of the identity in row `r` and column `c`.
    pub open spec fn identity_entry(r: int, c: int) -> Fixed {
        if r == c {
            Fixed::of(SCALE as int)
        } else {
            Fixed::of(0)
        }
    }

    /// The matrix with ones on the diagonal and zeros elsewhere.
    pub fn identity() -> (out: Matrix<DIM, DIM>)
        ensures
            forall|r: int, c: int|
                0 <= r < DIM && 0 <= c < DIM ==> #[trigger] out.entry(r, c) == Self::identity_entry(
                    r,
                    c,
                ),
    {
        let mut result: [[Fixed; DIM]; DIM] = [[Fixed::zero(); DIM]; DIM];
        let mut c: usize = 0;
        while c < DIM
            invariant
                c <= DIM,
                forall|i: int, j: int|
                    0 <= i < DIM && 0 <= j < DIM ==> #[trigger] result[j][i] == (if j < c {
                        Self::identity_entry(i, j)
                    } else {
                        Fixed::of(0)
                    }),
            decreases DIM - c,
        {
            let mut column: [Fixed; DIM] = result[c];
            column[c] = Fixed::one();
            result[c] = column;
            c += 1;
        }
        Matrix { data: result }
    }
}

} // verus!
