//! Rows of a strided span.

use vstd::prelude::*;

verus! {

/// Bytes from the first to the last byte of `height` rows that are `row_stride`
/// apart, where that fits 64 bits.
pub open spec fn span_bytes(height: u32, row_stride: u64, tight: usize) -> Option<u64> {
    let span = (height - 1) * row_stride + tight;
    if height == 0 || tight == 0 || span > u64::MAX {
        None
    } else {
        Some(span as u64)
    }
}

/// The length of a strided span, where there is one to access.
pub fn bulk_span_len(height: u32, row_stride: u64, tight: usize) -> (span: Option<u64>)
    ensures
        span == span_bytes(height, row_stride, tight),
{
    if height == 0 || tight == 0 {
        return None;
    }
    match ((height - 1) as u64).checked_mul(row_stride) {
        Some(rows) => rows.checked_add(tight as u64),
        None => None,
    }
}

/// Byte `i` of the tight rows stands at this offset of the span.
pub open spec fn strided_offset(i: int, row_stride: int, tight: int) -> int {
    (i / tight) * row_stride + i % tight
}

/// The tight rows of a span.
pub open spec fn tight_rows(span: Seq<u8>, row_stride: int, tight: int, height: int) -> Seq<u8> {
    Seq::new((tight * height) as nat, |i: int| span[strided_offset(i, row_stride, tight)])
}

/// Offset `o` of a span is a byte of one of its rows.
pub open spec fn in_row(o: int, row_stride: int, tight: int, height: int) -> bool {
    o / row_stride < height && o % row_stride < tight
}

/// The span with tight rows put in; what lies between the rows stays.
pub open spec fn with_rows(
    span: Seq<u8>,
    rows: Seq<u8>,
    row_stride: int,
    tight: int,
    height: int,
) -> Seq<u8> {
    Seq::new(
        span.len(),
        |o: int|
            if in_row(o, row_stride, tight, height) {
                rows[(o / row_stride) * tight + o % row_stride]
            } else {
                span[o]
            },
    )
}

proof fn lemma_split(i: int, d: int, q: int, r: int)
    requires
        d > 0,
        i == q * d + r,
        0 <= r < d,
    ensures
        i / d == q,
        i % d == r,
{
    vstd::arithmetic::div_mod::lemma_fundamental_div_mod_converse(i, d, q, r);
}

/// Take the tight rows out of a span.
pub fn destride(span: &[u8], row_stride: usize, tight: usize, height: usize) -> (rows: Vec<u8>)
    requires
        tight > 0,
        tight <= row_stride,
        height > 0,
        (height - 1) * row_stride + tight <= span.len(),
    ensures
        rows@ == tight_rows(span@, row_stride as int, tight as int, height as int),
{
    let mut rows: Vec<u8> = Vec::new();
    let mut y: usize = 0;
    assert(0 * tight == 0) by (nonlinear_arith);
    assert(rows@ =~= tight_rows(span@, row_stride as int, tight as int, 0));
    while y < height
        invariant
            tight > 0,
            tight <= row_stride,
            y <= height,
            (height - 1) * row_stride + tight <= span.len(),
            rows@ == tight_rows(span@, row_stride as int, tight as int, y as int),
        decreases height - y,
    {
        proof {
            assert(y * row_stride + tight <= span.len()) by (nonlinear_arith)
                requires
                    y <= height - 1,
                    (height - 1) * row_stride + tight <= span.len(),
            ;
        }
        assert(span@.len() == span.len());
        let start: usize = y * row_stride;
        let ghost before = rows@;
        let mut x: usize = 0;
        while x < tight
            invariant
                tight > 0,
                x <= tight,
                start == y * row_stride,
                start + tight <= span.len(),
                before == tight_rows(span@, row_stride as int, tight as int, y as int),
                rows@ == before + span@.subrange(start as int, start + x),
            decreases tight - x,
        {
            assert(span@.len() == span.len());
            rows.push(span[start + x]);
            x = x + 1;
            assert(rows@ =~= before + span@.subrange(start as int, start + x));
        }
        proof {
            lemma_row_appended(span@, row_stride as int, tight as int, y as int);
        }
        y = y + 1;
    }
    rows
}

proof fn lemma_row_appended(span: Seq<u8>, row_stride: int, tight: int, y: int)
    requires
        0 < tight <= row_stride,
        y >= 0,
        y * row_stride + tight <= span.len(),
    ensures
        tight_rows(span, row_stride, tight, y) + span.subrange(
            y * row_stride,
            y * row_stride + tight,
        ) == tight_rows(span, row_stride, tight, y + 1),
{
    let a = tight_rows(span, row_stride, tight, y);
    let b = tight_rows(span, row_stride, tight, y + 1);
    assert(tight * (y + 1) == tight * y + tight) by (nonlinear_arith);
    assert(tight * y >= 0) by (nonlinear_arith)
        requires
            tight > 0,
            y >= 0,
    ;
    assert(y * row_stride >= 0) by (nonlinear_arith)
        requires
            row_stride > 0,
            y >= 0,
    ;
    let joined = a + span.subrange(y * row_stride, y * row_stride + tight);
    assert forall|i: int| 0 <= i < b.len() implies joined[i] == b[i] by {
        if i >= tight * y {
            let r = i - tight * y;
            assert(i == y * tight + r) by (nonlinear_arith)
                requires
                    r == i - tight * y,
            ;
            lemma_split(i, tight, y, r);
        }
    }
    assert(joined =~= b);
}

/// Put tight rows into a span. What lies between the rows is left alone: rows are
/// addressed by their stride, so it is dead space.
pub fn restride(
    span: &mut Vec<u8>,
    rows: &[u8],
    row_stride: usize,
    tight: usize,
    height: usize,
)
    requires
        tight > 0,
        tight <= row_stride,
        height > 0,
        old(span).len() == (height - 1) * row_stride + tight,
        rows.len() >= tight * height,
    ensures
        final(span)@ == with_rows(
            old(span)@,
            rows@,
            row_stride as int,
            tight as int,
            height as int,
        ),
{
    let ghost start = span@;
    let mut y: usize = 0;
    proof {
        assert forall|o: int| 0 <= o < start.len() implies !in_row(
            o,
            row_stride as int,
            tight as int,
            0,
        ) by {
            vstd::arithmetic::div_mod::lemma_div_pos_is_pos(o, row_stride as int);
        }
    }
    assert(span@ =~= with_rows(start, rows@, row_stride as int, tight as int, 0));
    while y < height
        invariant
            tight > 0,
            tight <= row_stride,
            y <= height,
            start.len() == (height - 1) * row_stride + tight,
            rows.len() >= tight * height,
            span@ == with_rows(start, rows@, row_stride as int, tight as int, y as int),
        decreases height - y,
    {
        proof {
            assert(y * row_stride + tight <= start.len()) by (nonlinear_arith)
                requires
                    y <= height - 1,
                    start.len() == (height - 1) * row_stride + tight,
            ;
            assert(y * tight + tight <= rows.len()) by (nonlinear_arith)
                requires
                    y <= height - 1,
                    tight * height <= rows.len(),
            ;
            assert(y * row_stride >= 0 && y * tight >= 0) by (nonlinear_arith)
                requires
                    y >= 0,
                    row_stride >= 0,
                    tight >= 0,
            ;
        }
        assert(span@.len() == span.len());
        assert(rows@.len() == rows.len());
        let to: usize = y * row_stride;
        let from: usize = y * tight;
        let ghost before = span@;
        let mut x: usize = 0;
        while x < tight
            invariant
                x <= tight,
                to + tight <= span@.len(),
                from + tight <= rows.len(),
                span@.len() == before.len(),
                forall|o: int|
                    0 <= o < before.len() ==> #[trigger] span@[o] == if to <= o < to + x {
                        rows@[from + (o - to)]
                    } else {
                        before[o]
                    },
            decreases tight - x,
        {
            assert(span@.len() == span.len());
            assert(rows@.len() == rows.len());
            span.set(to + x, rows[from + x]);
            x = x + 1;
        }
        proof {
            let s = row_stride as int;
            let t = tight as int;
            assert forall|o: int| 0 <= o < start.len() implies span@[o] == with_rows(
                start,
                rows@,
                s,
                t,
                y + 1,
            )[o] by {
                vstd::arithmetic::div_mod::lemma_fundamental_div_mod(o, s);
                vstd::arithmetic::div_mod::lemma_mod_bound(o, s);
                let q = o / s;
                let r = o % s;
                if q == y {
                    assert(o == to + r) by (nonlinear_arith)
                        requires
                            o == s * q + r,
                            q == y,
                            to == y * s,
                    ;
                    assert(q * t == from) by (nonlinear_arith)
                        requires
                            q == y,
                            from == y * t,
                    ;
                } else if to <= o < to + t {
                    lemma_split(o, s, y as int, o - to);
                }
            }
            assert(span@ =~= with_rows(start, rows@, s, t, y + 1));
        }
        y = y + 1;
    }
}

/// Rows put into a span come out of it again.
pub proof fn law_rows_survive_the_span(
    span: Seq<u8>,
    rows: Seq<u8>,
    row_stride: int,
    tight: int,
    height: int,
)
    requires
        0 < tight <= row_stride,
        height > 0,
        span.len() == (height - 1) * row_stride + tight,
        rows.len() == tight * height,
    ensures
        tight_rows(with_rows(span, rows, row_stride, tight, height), row_stride, tight, height)
            == rows,
{
    let out = tight_rows(
        with_rows(span, rows, row_stride, tight, height),
        row_stride,
        tight,
        height,
    );
    assert forall|i: int| 0 <= i < rows.len() implies out[i] == rows[i] by {
        vstd::arithmetic::div_mod::lemma_fundamental_div_mod(i, tight);
        vstd::arithmetic::div_mod::lemma_mod_bound(i, tight);
        vstd::arithmetic::div_mod::lemma_div_pos_is_pos(i, tight);
        let q = i / tight;
        let r = i % tight;
        let o = q * row_stride + r;
        assert(q <= height - 1) by (nonlinear_arith)
            requires
                i == tight * q + r,
                r >= 0,
                i < tight * height,
                tight > 0,
        ;
        assert(0 <= o < span.len()) by (nonlinear_arith)
            requires
                0 <= q <= height - 1,
                0 <= r < tight,
                o == q * row_stride + r,
                span.len() == (height - 1) * row_stride + tight,
                row_stride > 0,
        ;
        lemma_split(o, row_stride, q, r);
        assert(q * tight + r == i) by (nonlinear_arith)
            requires
                i == tight * q + r,
        ;
    }
    assert(out =~= rows);
}

/// Read a strided texture out of one view of its span: `span` is what the view gave,
/// where the span could be packed into one. Without it the rows are read one by one.
pub fn read_linear_texture_bulk(
    span: Option<&Vec<u8>>,
    row_stride: u64,
    tight: usize,
    height: u32,
) -> (rows: Option<Vec<u8>>)
    requires
        tight <= row_stride,
    ensures
        match (span, span_bytes(height, row_stride, tight)) {
            (Some(bytes), Some(len)) => if len <= bytes.len() {
                rows is Some && rows->0@ == tight_rows(
                    bytes@,
                    row_stride as int,
                    tight as int,
                    height as int,
                )
            } else {
                rows is None
            },
            _ => rows is None,
        },
{
    match (span, bulk_span_len(height, row_stride, tight)) {
        (Some(bytes), Some(len)) => {
            if (bytes.len() as u64) < len {
                return None;
            }
            if height == 1 {
                assert((height - 1) * row_stride == 0 && (1 - 1) * tight == 0) by (nonlinear_arith)
                    requires
                        height == 1,
                ;
                proof {
                    lemma_one_row(bytes@, row_stride as int, tight as int);
                }
                return Some(destride(bytes.as_slice(), tight, tight, 1));
            }
            assert(row_stride <= len) by (nonlinear_arith)
                requires
                    len == (height - 1) * row_stride + tight,
                    height >= 2,
                    tight >= 0,
            ;
            Some(destride(bytes.as_slice(), row_stride as usize, tight, height as usize))
        },
        _ => None,
    }
}

/// The stride of a single row does not count.
proof fn lemma_one_row(span: Seq<u8>, row_stride: int, tight: int)
    requires
        0 < tight,
    ensures
        tight_rows(span, row_stride, tight, 1) == tight_rows(span, tight, tight, 1),
{
    let a = tight_rows(span, row_stride, tight, 1);
    let b = tight_rows(span, tight, tight, 1);
    assert forall|i: int| 0 <= i < a.len() implies a[i] == b[i] by {
        lemma_split(i, tight, 0, i);
        assert(0 * row_stride == 0 && 0 * tight == 0);
    }
    assert(a =~= b);
}

/// Put a strided texture's rows into one view of its span, and hand back what the
/// view has to hold. `span` is what it holds now, where the span could be packed
/// into one and the guest mapped it all; without it the rows are written one by one.
pub fn write_linear_texture_bulk(
    span: Option<Vec<u8>>,
    rows: &Vec<u8>,
    row_stride: u64,
    tight: usize,
    height: u32,
) -> (out: Option<Vec<u8>>)
    requires
        tight <= row_stride,
    ensures
        match (span, span_bytes(height, row_stride, tight)) {
            (Some(bytes), Some(len)) => if len == bytes.len() && rows.len() >= tight * height {
                out is Some && out->0@ == with_rows(
                    bytes@,
                    rows@,
                    row_stride as int,
                    tight as int,
                    height as int,
                )
            } else {
                out is None
            },
            _ => out is None,
        },
{
    match (span, bulk_span_len(height, row_stride, tight)) {
        (Some(bytes), Some(len)) => {
            assert(tight * height <= usize::MAX * 0xffff_ffff) by (nonlinear_arith)
                requires
                    tight <= usize::MAX,
                    height <= 0xffff_ffff,
            ;
            let need: u128 = tight as u128 * height as u128;
            if bytes.len() as u64 != len || (rows.len() as u128) < need {
                return None;
            }
            let mut out = bytes;
            if height == 1 {
                assert((height - 1) * row_stride == 0 && (1 - 1) * tight == 0) by (nonlinear_arith)
                    requires
                        height == 1,
                ;
                proof {
                    lemma_one_row_in(bytes@, rows@, row_stride as int, tight as int);
                }
                restride(&mut out, rows.as_slice(), tight, tight, 1);
                return Some(out);
            }
            assert(row_stride <= len) by (nonlinear_arith)
                requires
                    len == (height - 1) * row_stride + tight,
                    height >= 2,
                    tight >= 0,
            ;
            restride(&mut out, rows.as_slice(), row_stride as usize, tight, height as usize);
            Some(out)
        },
        _ => None,
    }
}

proof fn lemma_one_row_in(span: Seq<u8>, rows: Seq<u8>, row_stride: int, tight: int)
    requires
        0 < tight <= row_stride,
        span.len() == tight,
    ensures
        with_rows(span, rows, row_stride, tight, 1) == with_rows(span, rows, tight, tight, 1),
{
    let a = with_rows(span, rows, row_stride, tight, 1);
    let b = with_rows(span, rows, tight, tight, 1);
    assert forall|o: int| 0 <= o < a.len() implies a[o] == b[o] by {
        lemma_split(o, tight, 0, o);
        lemma_split(o, row_stride, 0, o);
    }
    assert(a =~= b);
}

} // verus!
