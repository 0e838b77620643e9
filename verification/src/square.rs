//! Geometry of the extended data square: which rows a blob spans, computed
//! from its square index and share count.
//!
//! The extended square has `eds_size` rows; the original square is half as
//! wide. For a blob at square index `i` with `s` shares the span is
//! `first_row = i / eds_size`, `ods_index = i - first_row * ods_size`, and
//! `last_row = ceil((ods_index + max(1, s)) / ods_size) - 1`; a one-share
//! floor avoids a zero-sized span.

use vstd::prelude::*;

verus! {

/// Failures of the row-span computation.
#[derive(Debug)]
pub enum SquareError {
    /// Some index falls outside the square.
    BadSquareGeometry,
}

/// The rows of the extended square that one blob occupies.
pub struct RowSpan {
    pub first_row: u64,
    pub last_row: u64,
    pub ods_index: u64,
    pub share_count: u64,
}

/// The share count used for span computation: at least one.
pub open spec fn spec_max1(size: int) -> int {
    if size == 0 {
        1
    } else {
        size
    }
}

/// Ceiling division for positive divisors.
pub open spec fn spec_ceil_div(a: int, b: int) -> int {
    (a + b - 1) / b
}

/// The first extended-square row the blob touches.
pub open spec fn spec_first_row(idx: int, eds: int) -> int {
    idx / eds
}

/// The blob's index within the original square.
pub open spec fn spec_ods_index(idx: int, eds: int) -> int {
    idx - spec_first_row(idx, eds) * (eds / 2)
}

/// The last row the blob touches.
pub open spec fn spec_last_row(idx: int, size: int, eds: int) -> int {
    spec_ceil_div(spec_ods_index(idx, eds) + spec_max1(size), eds / 2) - 1
}

/// Whether the blob's position fits the square: the square is non-trivial and
/// even-sided, and the computed span lies within its rows.
pub open spec fn spec_geometry_ok(idx: int, size: int, eds: int) -> bool {
    &&& eds >= 2
    &&& eds % 2 == 0
    &&& spec_first_row(idx, eds) <= spec_last_row(idx, size, eds)
    &&& spec_last_row(idx, size, eds) < eds
}

/// Multiplying back a flooring division stays at or below the dividend.
proof fn lemma_div_mul_le(idx: int, eds: int)
    requires
        idx >= 0,
        eds >= 1,
    ensures
        (idx / eds) * eds <= idx,
        idx / eds >= 0,
{
    assert((idx / eds) * eds <= idx && idx / eds >= 0) by (nonlinear_arith)
        requires
            idx >= 0,
            eds >= 1,
    ;
}

/// Computes the row span of a blob. Succeeds exactly when the geometry fits
/// the square; the result then carries the spec formulas' values.
pub fn row_span(blob_index: u64, blob_size: u64, eds_size: u64) -> (r: Result<
    RowSpan,
    SquareError,
>)
    ensures
        r is Ok <==> spec_geometry_ok(blob_index as int, blob_size as int, eds_size as int),
        r matches Ok(s) ==> {
            &&& s.first_row == spec_first_row(blob_index as int, eds_size as int)
            &&& s.ods_index == spec_ods_index(blob_index as int, eds_size as int)
            &&& s.last_row == spec_last_row(blob_index as int, blob_size as int, eds_size as int)
            &&& s.share_count == spec_max1(blob_size as int)
            &&& s.first_row <= s.last_row < eds_size
        },
{
    if eds_size < 2 || eds_size % 2 != 0 {
        return Err(SquareError::BadSquareGeometry);
    }
    let ods_size: u64 = eds_size / 2;
    let first_row: u64 = blob_index / eds_size;
    proof {
        lemma_div_mul_le(blob_index as int, eds_size as int);
        assert((blob_index as int / eds_size as int) * (eds_size as int / 2) <= (blob_index as int
            / eds_size as int) * eds_size as int) by (nonlinear_arith)
            requires
                blob_index as int / eds_size as int >= 0,
                eds_size as int >= 2,
        ;
    }
    let back: u64 = first_row * ods_size;
    let ods_index: u64 = blob_index - back;
    let share_count: u64 = if blob_size == 0 {
        1u64
    } else {
        blob_size
    };
    let sum: u128 = ods_index as u128 + share_count as u128;
    proof {
        assert((sum as int + ods_size as int - 1) / ods_size as int >= 1) by (nonlinear_arith)
            requires
                sum as int >= 1,
                ods_size as int >= 1,
        ;
    }
    let last_row_wide: u128 = (sum + ods_size as u128 - 1) / ods_size as u128 - 1;
    if last_row_wide >= eds_size as u128 {
        return Err(SquareError::BadSquareGeometry);
    }
    let last_row: u64 = last_row_wide as u64;
    if first_row > last_row {
        return Err(SquareError::BadSquareGeometry);
    }
    Ok(RowSpan { first_row, last_row, ods_index, share_count })
}

/// A blob that computes to zero shares spans exactly the rows of a one-share
/// blob: the one-share floor collapses the empty case.
pub proof fn lemma_empty_blob_span(idx: int, eds: int)
    ensures
        spec_last_row(idx, 0, eds) == spec_last_row(idx, 1, eds),
{
}

} // verus!
