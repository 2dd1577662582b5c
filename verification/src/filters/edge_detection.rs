//! The integer part of edge detection: the two Sobel gradients of the red
//! channel, and their energy over the whole picture.

use vstd::prelude::*;
use vstd::arithmetic::div_mod::lemma_fundamental_div_mod_converse;
use super::filter::Snapshot;
use super::window::{weighted, weighted_is_bounded, window};
use crate::formats::Grid;

verus! {

/// The weights of the first Sobel gradient.
pub open spec fn sobel_x_weights() -> Seq<i64> {
    seq![-1i64, 0i64, 1i64, -2i64, 0i64, 2i64, -1i64, 0i64, 1i64]
}

/// The weights of the second Sobel gradient.
pub open spec fn sobel_y_weights() -> Seq<i64> {
    seq![-1i64, -2i64, -1i64, 0i64, 0i64, 0i64, 1i64, 2i64, 1i64]
}

/// The first Sobel gradient of the red channel at (`x`, `y`).
pub open spec fn gradient_x(g: Grid, x: int, y: int) -> int {
    weighted(window(g, x, y, 3), sobel_x_weights(), 9).r
}

/// The second Sobel gradient of the red channel at (`x`, `y`).
pub open spec fn gradient_y(g: Grid, x: int, y: int) -> int {
    weighted(window(g, x, y, 3), sobel_y_weights(), 9).r
}

/// The squared length of the gradient at (`x`, `y`).
pub open spec fn energy(g: Grid, x: int, y: int) -> int {
    gradient_x(g, x, y) * gradient_x(g, x, y) + gradient_y(g, x, y) * gradient_y(g, x, y)
}

/// The squared length of the gradient at every coordinate, row by row.
pub open spec fn energies(g: Grid) -> Seq<int> {
    Seq::new(g.pixels.len(), |i: int| energy(g, i % (g.width as int), i / (g.width as int)))
}

/// No gradient is beyond 4590 in size.
pub proof fn gradients_are_bounded(g: Grid, x: int, y: int)
    ensures
        -4590 <= gradient_x(g, x, y) <= 4590,
        -4590 <= gradient_y(g, x, y) <= 4590,
        0 <= energy(g, x, y) <= 2 * 4590 * 4590,
{
    weighted_is_bounded(window(g, x, y, 3), sobel_x_weights(), 9, 2);
    weighted_is_bounded(window(g, x, y, 3), sobel_y_weights(), 9, 2);
    let a = gradient_x(g, x, y);
    let b = gradient_y(g, x, y);
    assert(0 <= a * a <= 4590 * 4590) by (nonlinear_arith)
        requires
            -4590 <= a <= 4590,
    ;
    assert(0 <= b * b <= 4590 * 4590) by (nonlinear_arith)
        requires
            -4590 <= b <= 4590,
    ;
}

/// The first Sobel gradient of the red channel at (`x`, `y`).
pub fn sobel_x(src: &Snapshot, x: usize, y: usize) -> (res: i32)
    requires
        src.wf(),
        x < src.width,
        y < src.height,
    ensures
        res == gradient_x(src@, x as int, y as int),
{
    let kernel: [i64; 9] = [-1, 0, 1, -2, 0, 2, -1, 0, 1];
    assert(kernel@ =~= sobel_x_weights());
    proof {
        gradients_are_bounded(src@, x as int, y as int);
    }
    src.convolve(x, y, &kernel).0 as i32
}

/// The second Sobel gradient of the red channel at (`x`, `y`).
pub fn sobel_y(src: &Snapshot, x: usize, y: usize) -> (res: i32)
    requires
        src.wf(),
        x < src.width,
        y < src.height,
    ensures
        res == gradient_y(src@, x as int, y as int),
{
    let kernel: [i64; 9] = [-1, -2, -1, 0, 0, 0, 1, 2, 1];
    assert(kernel@ =~= sobel_y_weights());
    proof {
        gradients_are_bounded(src@, x as int, y as int);
    }
    src.convolve(x, y, &kernel).0 as i32
}

/// The squared length of the gradient at (`x`, `y`).
pub fn energy_at(src: &Snapshot, x: usize, y: usize) -> (res: u32)
    requires
        src.wf(),
        x < src.width,
        y < src.height,
    ensures
        res == energy(src@, x as int, y as int),
{
    proof {
        gradients_are_bounded(src@, x as int, y as int);
    }
    let gx = sobel_x(src, x, y) as i64;
    let gy = sobel_y(src, x, y) as i64;
    assert(0 <= gx * gx <= 4590 * 4590 && 0 <= gy * gy <= 4590 * 4590) by (nonlinear_arith)
        requires
            -4590 <= gx <= 4590,
            -4590 <= gy <= 4590,
    ;
    (gx * gx + gy * gy) as u32
}

/// The first pass of edge detection: the squared length of the gradient at
/// every coordinate, row by row.
pub fn edge_energies(src: &Snapshot) -> (res: Vec<u32>)
    requires
        src.wf(),
    ensures
        res@.len() == src@.pixels.len(),
        forall|i: int| 0 <= i < res@.len() ==> res@[i] == #[trigger] energies(src@)[i],
{
    let w = src.width;
    let h = src.height;
    let mut res: Vec<u32> = Vec::new();
    let mut y: usize = 0;
    while y < h
        invariant
            src.wf(),
            w == src.width,
            h == src.height,
            y <= h,
            res@.len() == y * w,
            y * w <= src@.pixels.len(),
            forall|i: int| 0 <= i < res@.len() ==> res@[i] == #[trigger] energies(src@)[i],
        decreases h - y,
    {
        let mut x: usize = 0;
        while x < w
            invariant
                src.wf(),
                w == src.width,
                h == src.height,
                y < h,
                x <= w,
                res@.len() == y * w + x,
                y * w + x <= src@.pixels.len(),
                forall|i: int| 0 <= i < res@.len() ==> res@[i] == #[trigger] energies(src@)[i],
            decreases w - x,
        {
            proof {
                src@.index_in_range(x as int, y as int);
                lemma_fundamental_div_mod_converse(y * w + x, w as int, y as int, x as int);
            }
            res.push(energy_at(src, x, y));
            x += 1;
        }
        y += 1;
        assert(y * w == (y - 1) * w + w) by (nonlinear_arith);
    }
    assert(h * w == src@.width * src@.height) by (nonlinear_arith)
        requires
            h == src@.height,
            w == src@.width,
    ;
    res
}

/// The largest of `values`, or 0 when there is none.
pub open spec fn largest_of(values: Seq<u32>) -> u32
    decreases values.len(),
{
    if values.len() == 0 {
        0
    } else {
        let rest = largest_of(values.drop_last());
        if values.last() > rest {
            values.last()
        } else {
            rest
        }
    }
}

/// The largest of `values`, or 0 when there is none.
pub fn largest(values: &Vec<u32>) -> (res: u32)
    ensures
        res == largest_of(values@),
{
    let mut best: u32 = 0;
    let mut i: usize = 0;
    while i < values.len()
        invariant
            i <= values@.len(),
            best == largest_of(values@.take(i as int)),
        decreases values@.len() - i,
    {
        assert(values@.take(i + 1).drop_last() =~= values@.take(i as int));
        if values[i] > best {
            best = values[i];
        }
        i += 1;
    }
    assert(values@.take(i as int) =~= values@);
    best
}

/// Nothing in `values` is above the largest, and the largest is one of them
/// unless there is none.
pub proof fn largest_is_maximum(values: Seq<u32>)
    ensures
        forall|i: int| 0 <= i < values.len() ==> #[trigger] values[i] <= largest_of(values),
        values.len() > 0 ==> exists|i: int| 0 <= i < values.len() && values[i] == largest_of(values),
    decreases values.len(),
{
    if values.len() > 0 {
        let rest = values.drop_last();
        largest_is_maximum(rest);
        assert forall|i: int| 0 <= i < values.len() implies #[trigger] values[i] <= largest_of(
            values,
        ) by {
            if i < rest.len() {
                assert(rest[i] == values[i]);
            }
        }
        if values.last() > largest_of(rest) || rest.len() == 0 {
            assert(values[values.len() - 1] == largest_of(values));
        } else {
            let i = choose|i: int| 0 <= i < rest.len() && rest[i] == largest_of(rest);
            assert(values[i] == largest_of(values));
        }
    }
}

} // verus!
