//! Square matrices of bytes and the sum of their entries.

use vstd::prelude::*;

verus! {

/// The number of rows and of columns.
pub const RANK: usize = 64;

/// A square matrix of bytes, row by row.
pub type Matrix = [[u8; 64]; 64];

/// The sum of the first `upto` bytes of `row`.
pub open spec fn row_sum(row: Seq<u8>, upto: int) -> nat
    decreases upto,
{
    if upto <= 0 {
        0
    } else {
        row_sum(row, upto - 1) + row[upto - 1] as nat
    }
}

/// The sum of the entries of the first `upto` rows of `matrix`.
pub open spec fn rows_sum(matrix: Seq<[u8; 64]>, upto: int) -> nat
    decreases upto,
{
    if upto <= 0 {
        0
    } else {
        rows_sum(matrix, upto - 1) + row_sum(matrix[upto - 1]@, 64)
    }
}

/// The sum of all entries of `matrix`.
pub open spec fn total(matrix: Matrix) -> nat {
    rows_sum(matrix@, 64)
}

/// The sum of the entries of one row.
pub fn sum_row(row: &[u8; 64]) -> (sum: u64)
    ensures
        sum as nat == row_sum(row@, 64),
        sum <= 16320,
{
    let mut sum: u64 = 0;
    let mut i: usize = 0;
    while i < 64
        invariant
            i <= 64,
            sum as nat == row_sum(row@, i as int),
            sum <= i * 255,
        decreases 64 - i,
    {
        sum = sum + row[i] as u64;
        i += 1;
    }
    sum
}

/// The sum of all entries of `matrix`.
pub fn sum(matrix: &Matrix) -> (sum: u64)
    ensures
        sum as nat == total(*matrix),
{
    let mut sum: u64 = 0;
    let mut i: usize = 0;
    while i < 64
        invariant
            i <= 64,
            sum as nat == rows_sum(matrix@, i as int),
            sum <= i * 16320,
        decreases 64 - i,
    {
        sum = sum + sum_row(&matrix[i]);
        i += 1;
    }
    sum
}

} // verus!
