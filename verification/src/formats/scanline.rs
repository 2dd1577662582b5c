//! The predictive filter that PNG applies to every row of bytes before it
//! compresses them, and its inverse.
//!
//! A filtered stream holds, for every row, one byte that names the filter
//! and then the filtered bytes of the row. A byte is predicted from the
//! bytes that were reconstructed before it: the byte one pixel to the left,
//! the byte above, and the byte above and to the left, each taken as 0
//! where the row or the picture begins. Filtering subtracts the prediction
//! and reconstruction adds it, both modulo 256.

use vstd::prelude::*;
use super::png::{Png, PngColorType};

verus! {

/// The number of bytes that a pixel of the given colour type takes.
pub open spec fn bytes_per_pixel(color_type: PngColorType) -> nat {
    match color_type {
        PngColorType::RGB => 3,
        PngColorType::Grayscale => 1,
        PngColorType::Unknown => 0,
    }
}

/// The Paeth predictor: the one of `a`, `b` and `c` that is nearest to
/// `a + b - c`, with `a` preferred to `b` and `b` to `c`.
pub open spec fn paeth(a: u8, b: u8, c: u8) -> u8 {
    let p = a + b - c;
    let pa = if p >= a {
        p - a
    } else {
        a - p
    };
    let pb = if p >= b {
        p - b
    } else {
        b - p
    };
    let pc = if p >= c {
        p - c
    } else {
        c - p
    };
    if pa <= pb && pa <= pc {
        a
    } else if pb <= pc {
        b
    } else {
        c
    }
}

/// What filter `f` predicts for a byte from the bytes to its left, above it,
/// and above and to the left.
pub open spec fn predicted(f: u8, left: u8, up: u8, up_left: u8) -> u8 {
    if f == 1 {
        left
    } else if f == 2 {
        up
    } else if f == 3 {
        ((left + up) / 2) as u8
    } else if f == 4 {
        paeth(left, up, up_left)
    } else {
        0
    }
}

/// `a + b` modulo 256.
pub open spec fn wrap_add(a: u8, b: u8) -> u8 {
    ((a + b) % 256) as u8
}

/// `a - b` modulo 256.
pub open spec fn wrap_sub(a: u8, b: u8) -> u8 {
    ((a - b + 256) % 256) as u8
}

/// Byte `i` of the row that filter `f` reconstructs from the filtered bytes
/// `line`, with `prev` the reconstructed row above.
pub open spec fn unfiltered_byte(f: u8, line: Seq<u8>, prev: Seq<u8>, bpp: int, i: int) -> u8
    decreases i,
{
    if i < 0 || bpp <= 0 {
        0
    } else {
        let left = if i >= bpp {
            unfiltered_byte(f, line, prev, bpp, i - bpp)
        } else {
            0
        };
        let up_left = if i >= bpp {
            prev[i - bpp]
        } else {
            0
        };
        wrap_add(line[i], predicted(f, left, prev[i], up_left))
    }
}

/// The row that filter `f` reconstructs from the filtered bytes `line`.
pub open spec fn unfiltered_row(f: u8, line: Seq<u8>, prev: Seq<u8>, bpp: int) -> Seq<u8> {
    Seq::new(line.len(), |i: int| unfiltered_byte(f, line, prev, bpp, i))
}

/// The bytes that filter `f` makes of `row`, with `prev` the row above.
pub open spec fn filtered_row(f: u8, row: Seq<u8>, prev: Seq<u8>, bpp: int) -> Seq<u8> {
    Seq::new(
        row.len(),
        |i: int|
            wrap_sub(
                row[i],
                predicted(
                    f,
                    if i >= bpp {
                        row[i - bpp]
                    } else {
                        0
                    },
                    prev[i],
                    if i >= bpp {
                        prev[i - bpp]
                    } else {
                        0
                    },
                ),
            ),
    )
}

/// A row of `n` zero bytes: what stands above the first row.
pub open spec fn blank_row(n: int) -> Seq<u8> {
    Seq::new(n as nat, |i: int| 0u8)
}

/// The filter byte of row `k` of a filtered stream with rows of `stride`
/// bytes.
pub open spec fn filter_of(data: Seq<u8>, stride: int, k: int) -> u8 {
    data[k * stride]
}

/// The filtered bytes of row `k`.
pub open spec fn line_of(data: Seq<u8>, stride: int, k: int) -> Seq<u8> {
    data.subrange(k * stride + 1, (k + 1) * stride)
}

/// Whether `data` is a filtered stream with rows of `stride` bytes: a whole
/// number of rows, each with one of the filters 0 to 4.
pub open spec fn well_filtered(data: Seq<u8>, stride: int) -> bool {
    &&& stride >= 1
    &&& data.len() % (stride as nat) == 0
    &&& forall|k: int| 0 <= k < data.len() / (stride as nat) ==> filter_of(data, stride, k) <= 4
}

/// Row `k` as it is reconstructed from the filtered stream `data`.
pub open spec fn row_of(data: Seq<u8>, stride: int, bpp: int, k: int) -> Seq<u8>
    decreases k + 1,
{
    if k < 0 {
        blank_row(stride - 1)
    } else {
        unfiltered_row(
            filter_of(data, stride, k),
            line_of(data, stride, k),
            row_of(data, stride, bpp, k - 1),
            bpp,
        )
    }
}

/// The first `rows` rows as they are reconstructed from `data`, one after
/// the other.
pub open spec fn unfiltered_rows(data: Seq<u8>, stride: int, bpp: int, rows: int) -> Seq<u8>
    decreases rows,
{
    if rows <= 0 {
        Seq::empty()
    } else {
        unfiltered_rows(data, stride, bpp, rows - 1) + row_of(data, stride, bpp, rows - 1)
    }
}

/// All rows as they are reconstructed from `data`.
pub open spec fn unfiltered(data: Seq<u8>, stride: int, bpp: int) -> Seq<u8> {
    unfiltered_rows(data, stride, bpp, data.len() as int / stride)
}

/// Row `k` of the unfiltered bytes `raw`, which hold rows of `n` bytes. What
/// stands above the first row is blank.
pub open spec fn raw_row(raw: Seq<u8>, n: int, k: int) -> Seq<u8> {
    if k < 0 {
        blank_row(n)
    } else {
        raw.subrange(k * n, (k + 1) * n)
    }
}

/// The first `rows` rows of `raw` as filtered, each behind its filter byte.
pub open spec fn filtered_rows(raw: Seq<u8>, n: int, bpp: int, filters: Seq<u8>, rows: int) -> Seq<
    u8,
>
    decreases rows,
{
    if rows <= 0 {
        Seq::empty()
    } else {
        let k = rows - 1;
        filtered_rows(raw, n, bpp, filters, k) + seq![filters[k]] + filtered_row(
            filters[k],
            raw_row(raw, n, k),
            raw_row(raw, n, k - 1),
            bpp,
        )
    }
}

/// The filtered stream of `raw`: every row behind its filter byte, row `k`
/// filtered with `filters[k]`.
pub open spec fn filtered(raw: Seq<u8>, n: int, bpp: int, filters: Seq<u8>) -> Seq<u8> {
    filtered_rows(raw, n, bpp, filters, filters.len() as int)
}

fn predict(f: u8, left: u8, up: u8, up_left: u8) -> (res: u8)
    ensures
        res == predicted(f, left, up, up_left),
{
    if f == 1 {
        left
    } else if f == 2 {
        up
    } else if f == 3 {
        ((left as u16 + up as u16) / 2) as u8
    } else if f == 4 {
        Png::paeth_predictor(left, up, up_left)
    } else {
        0
    }
}

fn width_in_bytes(color_type: &PngColorType) -> (res: usize)
    ensures
        res == bytes_per_pixel(*color_type),
{
    match color_type {
        PngColorType::RGB => 3,
        PngColorType::Grayscale => 1,
        PngColorType::Unknown => 0,
    }
}

impl Png {
    /// The Paeth predictor.
    pub fn paeth_predictor(a: u8, b: u8, c: u8) -> (res: u8)
        ensures
            res == paeth(a, b, c),
    {
        let p = a as i16 + b as i16 - c as i16;
        let pa = if p >= a as i16 {
            p - a as i16
        } else {
            a as i16 - p
        };
        let pb = if p >= b as i16 {
            p - b as i16
        } else {
            b as i16 - p
        };
        let pc = if p >= c as i16 {
            p - c as i16
        } else {
            c as i16 - p
        };
        if pa <= pb && pa <= pc {
            a
        } else if pb <= pc {
            b
        } else {
            c
        }
    }

    /// Reconstructs the rows of a picture of `width` pixels per row from the
    /// filtered stream `data`. Fails when `data` is not a whole number of
    /// rows or a row names a filter other than 0 to 4.
    pub fn undo_png_filtering(data: &[u8], width: usize, color_type: PngColorType) -> (res:
        Option<Vec<u8>>)
        ensures
            res is Some <==> well_filtered(
                data@,
                width * bytes_per_pixel(color_type) + 1,
            ),
            res matches Some(v) ==> v@ == unfiltered(
                data@,
                width * bytes_per_pixel(color_type) + 1,
                bytes_per_pixel(color_type) as int,
            ),
    {
        let bpp = width_in_bytes(&color_type);
        let ghost wide = width * bpp + 1;
        assert(width * bpp >= 0) by (nonlinear_arith);
        let n: usize = if bpp == 0 {
            0
        } else if width > (usize::MAX - 1) / bpp {
            assert(width * bpp + 1 > usize::MAX) by (nonlinear_arith)
                requires
                    width > (usize::MAX - 1) / (bpp as int),
                    1 <= bpp <= 3,
            ;
            // A row is longer than any stream: only the empty stream is whole.
            if data.len() == 0 {
                assert(unfiltered(data@, wide, bpp as int) =~= Seq::<u8>::empty());
                assert(0nat % (wide as nat) == 0);
                assert(0nat / (wide as nat) == 0);
                return Some(Vec::new());
            } else {
                assert(data@.len() % (wide as nat) == data@.len()) by {
                    vstd::arithmetic::div_mod::lemma_small_mod(data@.len(), wide as nat);
                }
                return None;
            }
        } else {
            assert(width * bpp <= usize::MAX - 1) by (nonlinear_arith)
                requires
                    width <= (usize::MAX - 1) / (bpp as int),
                    1 <= bpp <= 3,
            ;
            width * bpp
        };
        let stride: usize = n + 1;
        if data.len() % stride != 0 {
            return None;
        }
        let rows: usize = data.len() / stride;
        assert(rows * stride == data@.len()) by {
            vstd::arithmetic::div_mod::lemma_fundamental_div_mod(data@.len() as int, stride as int);
            assert(rows * stride == stride * rows) by (nonlinear_arith);
        }
        assert(data@.len() / (stride as nat) == rows);
        let mut output: Vec<u8> = Vec::new();
        let mut prev_row: Vec<u8> = Vec::new();
        let mut z: usize = 0;
        while z < n
            invariant
                z <= n,
                prev_row@ == blank_row(z as int),
            decreases n - z,
        {
            prev_row.push(0);
            z += 1;
            assert(prev_row@ =~= blank_row(z as int));
        }
        let mut k: usize = 0;
        let mut base: usize = 0;
        while k < rows
            invariant
                stride == n + 1,
                stride == width * bytes_per_pixel(color_type) + 1,
                rows * stride == data@.len(),
                data@.len() / (stride as nat) == rows,
                data@.len() % (stride as nat) == 0,
                data@.len() <= usize::MAX,
                bpp == bytes_per_pixel(color_type),
                1 <= bpp <= 3 || n == 0,
                k <= rows,
                base == k * stride,
                prev_row@ == row_of(data@, stride as int, bpp as int, k - 1),
                prev_row@.len() == n,
                output@ == unfiltered_rows(data@, stride as int, bpp as int, k as int),
                forall|j: int| 0 <= j < k ==> filter_of(data@, stride as int, j) <= 4,
            decreases rows - k,
        {
            assert((k + 1) * stride <= rows * stride) by (nonlinear_arith)
                requires
                    k < rows,
            ;
            assert((k + 1) * stride == k * stride + stride) by (nonlinear_arith);
            let filter_type = data[base];
            if filter_type > 4 {
                assert(filter_of(data@, stride as int, k as int) > 4);
                return None;
            }
            let ghost line = line_of(data@, stride as int, k as int);
            let ghost goal = unfiltered_row(filter_type, line, prev_row@, bpp as int);
            let mut row: Vec<u8> = Vec::new();
            let mut i: usize = 0;
            while i < n
                invariant
                    stride == n + 1,
                    base + stride <= data@.len(),
                    data@.len() <= usize::MAX,
                    base == k * stride,
                    (k + 1) * stride == base + stride,
                    1 <= bpp <= 3 || n == 0,
                    i <= n,
                    prev_row@.len() == n,
                    line == line_of(data@, stride as int, k as int),
                    line.len() == n,
                    goal == unfiltered_row(filter_type, line, prev_row@, bpp as int),
                    row@ == goal.take(i as int),
                decreases n - i,
            {
                let left = if i >= bpp {
                    row[i - bpp]
                } else {
                    0
                };
                let above = prev_row[i];
                let upper_left = if i >= bpp {
                    prev_row[i - bpp]
                } else {
                    0
                };
                let byte = data[base + 1 + i];
                assert(byte == line[i as int]);
                let sum = byte as u16 + predict(filter_type, left, above, upper_left) as u16;
                row.push((sum % 256) as u8);
                i += 1;
                assert(row@ =~= goal.take(i as int));
            }
            assert(goal.take(n as int) =~= goal);
            let mut c: usize = 0;
            while c < n
                invariant
                    c <= n,
                    row@.len() == n,
                    output@ == unfiltered_rows(data@, stride as int, bpp as int, k as int)
                        + row@.take(c as int),
                decreases n - c,
            {
                output.push(row[c]);
                c += 1;
                assert(output@ =~= unfiltered_rows(data@, stride as int, bpp as int, k as int)
                    + row@.take(c as int));
            }
            assert(row@.take(n as int) =~= row@);
            prev_row = row;
            k += 1;
            base += stride;
        }
        Some(output)
    }
}

impl Png {
    /// Filters the rows of `raw`, which holds a picture of `width` pixels
    /// per row, row `k` with `filters[k]`.
    pub fn apply_png_filtering(
        raw: &[u8],
        width: usize,
        color_type: PngColorType,
        filters: &[u8],
    ) -> (res: Vec<u8>)
        requires
            raw@.len() == filters@.len() * (width * bytes_per_pixel(color_type)),
        ensures
            res@ == filtered(
                raw@,
                width * bytes_per_pixel(color_type),
                bytes_per_pixel(color_type) as int,
                filters@,
            ),
    {
        let bpp = width_in_bytes(&color_type);
        let rows = filters.len();
        let ghost wide = width * bpp;
        let mut out: Vec<u8> = Vec::new();
        if rows == 0 {
            return out;
        }
        let n: usize = raw.len() / rows;
        assert(n == wide) by {
            assert(rows * wide == wide * rows) by (nonlinear_arith);
            vstd::arithmetic::div_mod::lemma_div_multiples_vanish(wide, rows as int);
        }
        let mut k: usize = 0;
        let mut base: usize = 0;
        while k < rows
            invariant
                rows == filters@.len(),
                raw@.len() == rows * n,
                raw@.len() <= usize::MAX,
                bpp == bytes_per_pixel(color_type),
                k <= rows,
                base == k * n,
                out@ == filtered_rows(raw@, n as int, bpp as int, filters@, k as int),
            decreases rows - k,
        {
            assert((k + 1) * n <= rows * n) by (nonlinear_arith)
                requires
                    k < rows,
            ;
            assert((k + 1) * n == k * n + n) by (nonlinear_arith);
            assert(k > 0 ==> (k - 1) * n == k * n - n) by (nonlinear_arith);
            let f = filters[k];
            let ghost row = raw_row(raw@, n as int, k as int);
            let ghost prev = raw_row(raw@, n as int, k - 1);
            let ghost goal = filtered_row(f, row, prev, bpp as int);
            let ghost head = out@ + seq![f];
            out.push(f);
            let mut i: usize = 0;
            while i < n
                invariant
                    raw@.len() <= usize::MAX,
                    base == k * n,
                    base + n <= raw@.len(),
                    k > 0 ==> base >= n,
                    i <= n,
                    row == raw_row(raw@, n as int, k as int),
                    prev == raw_row(raw@, n as int, k - 1),
                    (k + 1) * n == base + n,
                    k > 0 ==> (k - 1) * n == base - n,
                    goal == filtered_row(f, row, prev, bpp as int),
                    out@ == head + goal.take(i as int),
                decreases n - i,
            {
                let left = if i >= bpp {
                    raw[base + i - bpp]
                } else {
                    0
                };
                let above = if k > 0 {
                    raw[base - n + i]
                } else {
                    0
                };
                let upper_left = if k > 0 && i >= bpp {
                    raw[base - n + i - bpp]
                } else {
                    0
                };
                let byte = raw[base + i];
                let guess = predict(f, left, above, upper_left);
                out.push(((byte as u16 + 256 - guess as u16) % 256) as u8);
                i += 1;
                assert(out@ =~= head + goal.take(i as int));
            }
            assert(goal.take(n as int) =~= goal);
            k += 1;
            base += n;
        }
        out
    }
}

/// The filter bytes of a filtered stream, one for each row.
pub open spec fn filters_of(data: Seq<u8>, stride: int) -> Seq<u8> {
    Seq::new(data.len() / (stride as nat), |k: int| filter_of(data, stride, k))
}

/// Reconstruction undoes filtering, row by row.
pub proof fn unfilter_undoes_filter(f: u8, row: Seq<u8>, prev: Seq<u8>, bpp: int)
    requires
        bpp >= 1,
    ensures
        unfiltered_row(f, filtered_row(f, row, prev, bpp), prev, bpp) == row,
{
    let line = filtered_row(f, row, prev, bpp);
    assert forall|i: int| 0 <= i < row.len() implies unfiltered_byte(f, line, prev, bpp, i)
        == row[i] by {
        unfilter_undoes_filter_at(f, row, prev, bpp, i);
    }
    assert(unfiltered_row(f, line, prev, bpp) =~= row);
}

proof fn unfilter_undoes_filter_at(f: u8, row: Seq<u8>, prev: Seq<u8>, bpp: int, i: int)
    requires
        bpp >= 1,
        0 <= i < row.len(),
    ensures
        unfiltered_byte(f, filtered_row(f, row, prev, bpp), prev, bpp, i) == row[i],
    decreases i,
{
    if i >= bpp {
        unfilter_undoes_filter_at(f, row, prev, bpp, i - bpp);
    }
}

/// Filtering undoes reconstruction, row by row.
pub proof fn filter_undoes_unfilter(f: u8, line: Seq<u8>, prev: Seq<u8>, bpp: int)
    requires
        bpp >= 1,
    ensures
        filtered_row(f, unfiltered_row(f, line, prev, bpp), prev, bpp) == line,
{
    let row = unfiltered_row(f, line, prev, bpp);
    assert forall|i: int| 0 <= i < line.len() implies filtered_row(f, row, prev, bpp)[i]
        == line[i] by {
        if i >= bpp {
            assert(row[i - bpp] == unfiltered_byte(f, line, prev, bpp, i - bpp));
        }
    }
    assert(filtered_row(f, row, prev, bpp) =~= line);
}

/// Where row `k` of `rows` rows of `n` bytes starts and ends.
proof fn row_bounds(k: int, rows: int, n: int)
    requires
        0 <= k < rows,
        0 <= n,
    ensures
        0 <= k * n,
        (k + 1) * n == k * n + n,
        (k + 1) * n <= rows * n,
{
    assert(0 <= k * n) by (nonlinear_arith)
        requires
            0 <= k,
            0 <= n,
    ;
    assert((k + 1) * n == k * n + n) by (nonlinear_arith);
    assert((k + 1) * n <= rows * n) by (nonlinear_arith)
        requires
            k + 1 <= rows,
            0 <= n,
    ;
}

/// Every reconstructed row has as many bytes as a filtered row holds behind
/// its filter byte, and the rows stand one after the other in what
/// reconstruction gives.
pub proof fn unfiltered_rows_shape(data: Seq<u8>, stride: int, bpp: int, rows: int)
    requires
        stride >= 1,
        0 <= rows,
        rows * stride <= data.len(),
    ensures
        unfiltered_rows(data, stride, bpp, rows).len() == rows * (stride - 1),
        forall|k: int| -1 <= k < rows ==> (#[trigger] row_of(data, stride, bpp, k)).len() == stride - 1,
        forall|k: int|
            0 <= k < rows ==> #[trigger] raw_row(
                unfiltered_rows(data, stride, bpp, rows),
                stride - 1,
                k,
            ) == row_of(data, stride, bpp, k),
    decreases rows,
{
    let n = stride - 1;
    if rows > 0 {
        let r = rows - 1;
        row_bounds(r, rows, stride);
        row_bounds(r, rows, n);
        unfiltered_rows_shape(data, stride, bpp, r);
        let before = unfiltered_rows(data, stride, bpp, r);
        let all = unfiltered_rows(data, stride, bpp, rows);
        let last = row_of(data, stride, bpp, r);
        assert(line_of(data, stride, r).len() == n);
        assert(last.len() == n);
        assert(all == before + last);
        assert forall|k: int| 0 <= k < rows implies #[trigger] raw_row(all, n, k) == row_of(
            data,
            stride,
            bpp,
            k,
        ) by {
            row_bounds(k, rows, n);
            if k < r {
                row_bounds(k, r, n);
                assert(raw_row(all, n, k) =~= raw_row(before, n, k));
            } else {
                assert(raw_row(all, n, k) =~= last);
            }
        }
    } else {
        assert(row_of(data, stride, bpp, -1).len() == stride - 1);
    }
}

proof fn refilter_prefix(data: Seq<u8>, stride: int, bpp: int, rows: int, r: int)
    requires
        stride >= 1,
        bpp >= 1,
        0 <= r <= rows,
        rows * stride == data.len(),
    ensures
        r * stride <= data.len(),
        filtered_rows(
            unfiltered_rows(data, stride, bpp, rows),
            stride - 1,
            bpp,
            filters_of(data, stride),
            r,
        ) == data.take(r * stride),
    decreases r,
{
    let n = stride - 1;
    let raw = unfiltered_rows(data, stride, bpp, rows);
    let filters = filters_of(data, stride);
    if r > 0 {
        let k = r - 1;
        row_bounds(k, rows, stride);
        refilter_prefix(data, stride, bpp, rows, k);
        unfiltered_rows_shape(data, stride, bpp, rows);
        assert(data.len() as int / stride == rows) by {
            assert(stride * rows == rows * stride) by (nonlinear_arith);
            vstd::arithmetic::div_mod::lemma_div_multiples_vanish(rows, stride);
        }
        assert(filters[k] == filter_of(data, stride, k));
        let here = row_of(data, stride, bpp, k);
        let above = row_of(data, stride, bpp, k - 1);
        assert(raw_row(raw, n, k) == here);
        assert(raw_row(raw, n, k - 1) == above) by {
            if k == 0 {
                assert(above =~= blank_row(n));
            }
        }
        filter_undoes_unfilter(filter_of(data, stride, k), line_of(data, stride, k), above, bpp);
        assert(filtered_row(filters[k], here, above, bpp) == line_of(data, stride, k));
        assert(data.take(k * stride) + seq![data[k * stride]] + line_of(data, stride, k)
            =~= data.take(r * stride));
    } else {
        assert(data.take(0) =~= Seq::<u8>::empty());
    }
}

/// Reconstructing the rows of a filtered stream and filtering them again,
/// every row with the filter that it had, gives the stream back byte for
/// byte.
pub proof fn refiltering_restores(data: Seq<u8>, stride: int, bpp: int)
    requires
        stride >= 1,
        bpp >= 1,
        data.len() % (stride as nat) == 0,
    ensures
        filtered(unfiltered(data, stride, bpp), stride - 1, bpp, filters_of(data, stride)) == data,
{
    let rows = data.len() as int / stride;
    assert(rows * stride == data.len()) by {
        vstd::arithmetic::div_mod::lemma_fundamental_div_mod(data.len() as int, stride);
        assert(rows * stride == stride * rows) by (nonlinear_arith);
    }
    assert(0 <= rows) by (nonlinear_arith)
        requires
            rows * stride == data.len(),
            stride >= 1,
    ;
    refilter_prefix(data, stride, bpp, rows, rows);
    assert(data.take(rows * stride) =~= data);
}

/// What filtering gives has one row of `n + 1` bytes for every filter, and
/// row `k` holds `filters[k]` and what that filter makes of row `k`.
proof fn filtered_rows_shape(raw: Seq<u8>, n: int, bpp: int, filters: Seq<u8>, rows: int)
    requires
        0 <= n,
        0 <= rows <= filters.len(),
        raw.len() == filters.len() * n,
    ensures
        filtered_rows(raw, n, bpp, filters, rows).len() == rows * (n + 1),
        forall|k: int|
            0 <= k < rows ==> #[trigger] filter_of(
                filtered_rows(raw, n, bpp, filters, rows),
                n + 1,
                k,
            ) == filters[k],
        forall|k: int|
            0 <= k < rows ==> #[trigger] line_of(
                filtered_rows(raw, n, bpp, filters, rows),
                n + 1,
                k,
            ) == filtered_row(filters[k], raw_row(raw, n, k), raw_row(raw, n, k - 1), bpp),
    decreases rows,
{
    let stride = n + 1;
    if rows > 0 {
        let r = rows - 1;
        row_bounds(r, rows, stride);
        row_bounds(r, filters.len() as int, n);
        filtered_rows_shape(raw, n, bpp, filters, r);
        let before = filtered_rows(raw, n, bpp, filters, r);
        let all = filtered_rows(raw, n, bpp, filters, rows);
        let last = filtered_row(filters[r], raw_row(raw, n, r), raw_row(raw, n, r - 1), bpp);
        assert(raw_row(raw, n, r).len() == n);
        assert(all == before + seq![filters[r]] + last);
        assert forall|k: int| 0 <= k < rows implies #[trigger] filter_of(all, stride, k)
            == filters[k] by {
            row_bounds(k, rows, stride);
            if k < r {
                row_bounds(k, r, stride);
                assert(filter_of(all, stride, k) == filter_of(before, stride, k));
            }
        }
        assert forall|k: int| 0 <= k < rows implies #[trigger] line_of(all, stride, k)
            == filtered_row(filters[k], raw_row(raw, n, k), raw_row(raw, n, k - 1), bpp) by {
            row_bounds(k, rows, stride);
            if k < r {
                row_bounds(k, r, stride);
                assert(line_of(all, stride, k) =~= line_of(before, stride, k));
            } else {
                assert(line_of(all, stride, k) =~= last);
            }
        }
    }
}

proof fn unfilter_prefix(raw: Seq<u8>, n: int, bpp: int, filters: Seq<u8>, r: int)
    requires
        0 <= n,
        bpp >= 1,
        0 <= r <= filters.len(),
        raw.len() == filters.len() * n,
    ensures
        r * n <= raw.len(),
        r > 0 ==> row_of(filtered(raw, n, bpp, filters), n + 1, bpp, r - 1) == raw_row(
            raw,
            n,
            r - 1,
        ),
        unfiltered_rows(filtered(raw, n, bpp, filters), n + 1, bpp, r) == raw.take(r * n),
    decreases r,
{
    let data = filtered(raw, n, bpp, filters);
    let rows = filters.len() as int;
    if r > 0 {
        let k = r - 1;
        row_bounds(k, rows, n);
        unfilter_prefix(raw, n, bpp, filters, k);
        filtered_rows_shape(raw, n, bpp, filters, rows);
        let above = row_of(data, n + 1, bpp, k - 1);
        assert(above == raw_row(raw, n, k - 1));
        assert(filter_of(data, n + 1, k) == filters[k]);
        assert(line_of(data, n + 1, k) == filtered_row(
            filters[k],
            raw_row(raw, n, k),
            raw_row(raw, n, k - 1),
            bpp,
        ));
        unfilter_undoes_filter(filters[k], raw_row(raw, n, k), raw_row(raw, n, k - 1), bpp);
        assert(row_of(data, n + 1, bpp, k) == raw_row(raw, n, k));
        assert(raw.take(k * n) + raw_row(raw, n, k) =~= raw.take(r * n));
    } else {
        assert(raw.take(0) =~= Seq::<u8>::empty());
    }
}

/// Filtering rows, every one with one of the filters 0 to 4, gives a
/// filtered stream, and reconstruction gives the rows back byte for byte.
pub proof fn unfiltering_restores(raw: Seq<u8>, n: int, bpp: int, filters: Seq<u8>)
    requires
        0 <= n,
        bpp >= 1,
        raw.len() == filters.len() * n,
        forall|k: int| 0 <= k < filters.len() ==> filters[k] <= 4,
    ensures
        filtered(raw, n, bpp, filters).len() == filters.len() * (n + 1),
        well_filtered(filtered(raw, n, bpp, filters), n + 1),
        filters_of(filtered(raw, n, bpp, filters), n + 1) == filters,
        unfiltered(filtered(raw, n, bpp, filters), n + 1, bpp) == raw,
{
    let data = filtered(raw, n, bpp, filters);
    let rows = filters.len() as int;
    filtered_rows_shape(raw, n, bpp, filters, rows);
    assert(data.len() == (n + 1) * rows) by (nonlinear_arith)
        requires
            data.len() == rows * (n + 1),
    ;
    vstd::arithmetic::div_mod::lemma_div_multiples_vanish(rows, n + 1);
    vstd::arithmetic::div_mod::lemma_mod_multiples_basic(rows, n + 1);
    assert(data.len() as int / (n + 1) == rows);
    assert(data.len() % ((n + 1) as nat) == 0);
    assert(filters_of(data, n + 1) =~= filters);
    unfilter_prefix(raw, n, bpp, filters, rows);
    assert(raw.take(rows * n) =~= raw);
}

impl Png {
    /// The filter bytes of a filtered stream with rows of `stride` bytes.
    pub fn row_filters(data: &[u8], stride: usize) -> (res: Vec<u8>)
        requires
            stride >= 1,
        ensures
            res@ == filters_of(data@, stride as int),
    {
        let rows = data.len() / stride;
        let mut res: Vec<u8> = Vec::new();
        let mut k: usize = 0;
        let mut base: usize = 0;
        while k < rows
            invariant
                stride >= 1,
                rows == data@.len() / (stride as nat),
                data@.len() <= usize::MAX,
                k <= rows,
                base == k * stride,
                res@ == filters_of(data@, stride as int).take(k as int),
            decreases rows - k,
        {
            assert((k + 1) * stride <= data@.len()) by {
                vstd::arithmetic::div_mod::lemma_fundamental_div_mod(
                    data@.len() as int,
                    stride as int,
                );
                assert((k + 1) * stride <= rows * stride) by (nonlinear_arith)
                    requires
                        k < rows,
                        stride >= 1,
                ;
                assert(rows * stride == stride * rows) by (nonlinear_arith);
            }
            assert((k + 1) * stride == k * stride + stride) by (nonlinear_arith);
            res.push(data[base]);
            k += 1;
            base += stride;
            assert(res@ =~= filters_of(data@, stride as int).take(k as int));
        }
        assert(filters_of(data@, stride as int).take(rows as int) =~= filters_of(
            data@,
            stride as int,
        ));
        res
    }
}

} // verus!
