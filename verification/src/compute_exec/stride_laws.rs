//! Rows with a stride, texel by texel.

use vstd::prelude::*;
use crate::compute_exec::stride::{span_bytes, tight_rows, with_rows};

verus! {

proof fn lemma_quotient(y: int, x: int, d: int)
    requires
        0 <= x < d,
        0 <= y,
    ensures
        (y * d + x) / d == y,
        (y * d + x) % d == x,
{
    vstd::arithmetic::div_mod::lemma_fundamental_div_mod_converse(y * d + x, d, y, x);
}

/// Byte `x` of tight row `y` is byte `x` of row `y` of the span, which starts `y` strides
/// into it.
pub proof fn law_tight_rows_are_the_rows(
    span: Seq<u8>,
    row_stride: int,
    tight: int,
    height: int,
    x: int,
    y: int,
)
    requires
        0 < tight <= row_stride,
        0 <= x < tight,
        0 <= y < height,
    ensures
        tight_rows(span, row_stride, tight, height).len() == tight * height,
        0 <= y * tight + x < tight * height,
        tight_rows(span, row_stride, tight, height)[y * tight + x] == span[y * row_stride + x],
{
    lemma_quotient(y, x, tight);
    assert(0 <= y * tight + x < tight * height) by (nonlinear_arith)
        requires
            0 <= x < tight,
            0 <= y < height,
    ;
}

/// Writing rows into a span puts byte `x` of row `y` at `x`, `y` strides in, and leaves
/// what lies between two rows alone.
pub proof fn law_rows_are_written_in_place(
    span: Seq<u8>,
    rows: Seq<u8>,
    row_stride: int,
    tight: int,
    height: int,
    x: int,
    y: int,
)
    requires
        0 < tight <= row_stride,
        0 <= x < row_stride,
        0 <= y,
        y * row_stride + x < span.len(),
    ensures
        with_rows(span, rows, row_stride, tight, height).len() == span.len(),
        x < tight && y < height ==> with_rows(span, rows, row_stride, tight, height)[y * row_stride
            + x] == rows[y * tight + x],
        x >= tight || y >= height ==> with_rows(span, rows, row_stride, tight, height)[y
            * row_stride + x] == span[y * row_stride + x],
{
    lemma_quotient(y, x, row_stride);
    assert(0 <= y * row_stride) by (nonlinear_arith)
        requires
            0 <= y,
            0 < row_stride,
    ;
}

/// A span ends with the last byte of its last row: it has a stride for every row but the
/// last, and the tight bytes of that one.
pub proof fn law_spans_end_with_the_last_row(height: u32, row_stride: u64, tight: usize)
    ensures
        span_bytes(height, row_stride, tight) is None <==> height == 0 || tight == 0 || height
            * row_stride - row_stride + tight > 0xffff_ffff_ffff_ffff,
        span_bytes(height, row_stride, tight) is Some ==> span_bytes(height, row_stride, tight)->0
            + row_stride == height * row_stride + tight,
{
    assert((height - 1) * row_stride == height * row_stride - row_stride) by (nonlinear_arith);
}

} // verus!
