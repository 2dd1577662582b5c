//! The oil painting filter: the most frequent pixel of a square window.

use std::collections::HashMap;
use vstd::prelude::*;
use super::filter::{ImageFilter, Snapshot};
use super::window::{sweep_windows, window, windowed, WindowMap, MAX_WINDOW};
use crate::formats::{Grid, ImageFormat};
use crate::models::Pixel;

verus! {

broadcast use vstd::std_specs::hash::group_hash_axioms;

/// Replaces every pixel by the pixel that occurs most often in the square
/// window around it.
pub struct OilPainting {
    size: u32,
}

/// How often `p` occurs among the first `count` pixels of `s`.
pub open spec fn occurrences(s: Seq<Pixel>, p: Pixel, count: nat) -> nat
    decreases count,
{
    if count == 0 {
        0
    } else {
        occurrences(s, p, (count - 1) as nat) + if s[count - 1] == p {
            1nat
        } else {
            0nat
        }
    }
}

/// The place, among the first `upto` places of `s`, of the pixel that
/// occurs most often in the whole of `s`. Of several such pixels the one
/// that stands first wins.
pub open spec fn leader(s: Seq<Pixel>, upto: nat) -> int
    decreases upto,
{
    if upto <= 1 {
        0
    } else {
        let before = leader(s, (upto - 1) as nat);
        if occurrences(s, s[upto - 1], s.len()) > occurrences(s, s[before], s.len()) {
            upto - 1
        } else {
            before
        }
    }
}

/// The pixel that occurs most often in `s`; of several, the one that
/// stands first.
pub open spec fn most_frequent(s: Seq<Pixel>) -> Pixel {
    s[leader(s, s.len())]
}

/// The three channels as one number.
pub open spec fn packed(p: Pixel) -> u32 {
    (p.r * 65536 + p.g * 256 + p.b) as u32
}

fn pack(p: &Pixel) -> (res: u32)
    ensures
        res == packed(*p),
{
    (p.r as u32) * 65536 + (p.g as u32) * 256 + (p.b as u32)
}

/// What the tally holds for `p`.
spec fn counted(counts: Map<u32, u32>, p: Pixel) -> nat {
    if counts.contains_key(packed(p)) {
        counts[packed(p)] as nat
    } else {
        0
    }
}

fn count_in(counts: &HashMap<u32, u32>, p: &Pixel) -> (res: u32)
    ensures
        res == counted(counts@, *p),
{
    let key = pack(p);
    match counts.get(&key) {
        Some(c) => *c,
        None => 0,
    }
}

/// The pixels under the window of `size` columns and rows around (`x`, `y`).
fn collect(src: &Snapshot, x: usize, y: usize, size: u32) -> (res: Vec<Pixel>)
    requires
        src.wf(),
        x < src.width,
        y < src.height,
        1 <= size <= MAX_WINDOW,
    ensures
        res@ == window(src@, x as int, y as int, size as int),
{
    let wide = size as u64;
    let half = (size / 2) as usize;
    assert(wide * wide <= 0xFFFF * 0xFFFF) by (nonlinear_arith)
        requires
            wide <= 0xFFFF,
    ;
    let total: u64 = wide * wide;
    let ghost cells = window(src@, x as int, y as int, size as int);
    let mut res: Vec<Pixel> = Vec::new();
    let mut t: u64 = 0;
    while t < total
        invariant
            src.wf(),
            x < src.width,
            y < src.height,
            wide == size,
            1 <= wide <= 0xFFFF,
            half == wide / 2,
            total == wide * wide,
            total <= 0xFFFF * 0xFFFF,
            cells == window(src@, x as int, y as int, size as int),
            t <= total,
            res@ == cells.take(t as int),
        decreases total - t,
    {
        let p = src.near(x, y, (t / wide) as usize, (t % wide) as usize, half);
        res.push(p);
        t += 1;
        assert(res@ =~= cells.take(t as int));
    }
    assert(cells.take(total as int) =~= cells);
    res
}

/// The pixel that occurs most often in `cells`; of several, the one that
/// stands first.
pub fn mode(cells: &Vec<Pixel>) -> (res: Pixel)
    requires
        0 < cells@.len() <= u32::MAX,
    ensures
        res == most_frequent(cells@),
{
    let n = cells.len();
    let mut counts: HashMap<u32, u32> = HashMap::new();
    let mut t: usize = 0;
    while t < n
        invariant
            n == cells@.len(),
            n <= u32::MAX,
            t <= n,
            forall|p: Pixel| #[trigger] counted(counts@, p) == occurrences(cells@, p, t as nat),
        decreases n - t,
    {
        let p = cells[t];
        let seen = count_in(&counts, &p);
        let ghost before = counts@;
        proof {
            occurrences_at_most(cells@, p, t as nat);
        }
        counts.insert(pack(&p), seen + 1);
        assert forall|q: Pixel| #[trigger]
            counted(counts@, q) == occurrences(cells@, q, (t + 1) as nat) by {
            assert(counted(before, q) == occurrences(cells@, q, t as nat));
            if packed(q) == packed(p) {
                packed_is_injective(p, q);
            }
        }
        t += 1;
    }
    let mut best: usize = 0;
    let mut most = count_in(&counts, &cells[0]);
    let mut i: usize = 1;
    while i < n
        invariant
            n == cells@.len(),
            1 <= i <= n,
            forall|p: Pixel| #[trigger] counted(counts@, p) == occurrences(cells@, p, n as nat),
            best == leader(cells@, i as nat),
            0 <= best < i,
            most == occurrences(cells@, cells@[best as int], n as nat),
        decreases n - i,
    {
        let here = count_in(&counts, &cells[i]);
        assert(here == occurrences(cells@, cells@[i as int], n as nat));
        if here > most {
            best = i;
            most = here;
        }
        i += 1;
    }
    cells[best]
}

/// No pixel occurs more often among `count` pixels than `count` times.
pub proof fn occurrences_at_most(s: Seq<Pixel>, p: Pixel, count: nat)
    ensures
        occurrences(s, p, count) <= count,
    decreases count,
{
    if count > 0 {
        occurrences_at_most(s, p, (count - 1) as nat);
    }
}

/// Two pixels with the same number are the same pixel.
proof fn packed_is_injective(p: Pixel, q: Pixel)
    requires
        packed(p) == packed(q),
    ensures
        p == q,
{
}

impl OilPainting {
    #[verifier::type_invariant]
    spec fn has_centre(self) -> bool {
        self.size % 2 == 1 && self.size <= MAX_WINDOW
    }

    /// The number of columns, and of rows, of the window.
    pub closed spec fn window_size(&self) -> nat {
        self.size as nat
    }

    /// A filter with a window of `size` columns and rows. Fails unless the
    /// size is odd, so that the window has a centre, and no larger than the
    /// widest window.
    pub fn new(size: u32) -> (res: Option<OilPainting>)
        ensures
            res is Some <==> size % 2 == 1 && size <= MAX_WINDOW,
            res matches Some(f) ==> f.window_size() == size,
    {
        if size % 2 == 1 && size as usize <= MAX_WINDOW {
            Some(OilPainting { size })
        } else {
            None
        }
    }
}

impl WindowMap for OilPainting {
    open spec fn image_at(&self, g: Grid, x: int, y: int) -> Pixel {
        most_frequent(window(g, x, y, self.window_size() as int))
    }

    fn at(&self, src: &Snapshot, x: usize, y: usize) -> (res: Pixel) {
        proof {
            use_type_invariant(self);
        }
        let cells = collect(src, x, y, self.size);
        assert(1 <= self.size * self.size <= 0xFFFF * 0xFFFF) by (nonlinear_arith)
            requires
                1 <= self.size <= 0xFFFF,
        ;
        mode(&cells)
    }
}

impl ImageFilter for OilPainting {
    open spec fn specified(&self) -> bool {
        true
    }

    open spec fn result(&self, g: Grid, ceiling: u8) -> Grid {
        windowed(self, g, ceiling)
    }

    fn apply<S: ImageFormat>(&self, img: &mut S) {
        sweep_windows(self, img)
    }
}

/// The leader occurs at least as often as every pixel of `s`, and more often
/// than every pixel that stands before it.
pub proof fn leader_is_first_mode(s: Seq<Pixel>, upto: nat)
    requires
        0 < upto <= s.len(),
    ensures
        0 <= leader(s, upto) < upto,
        forall|j: int|
            0 <= j < upto ==> occurrences(s, #[trigger] s[j], s.len()) <= occurrences(
                s,
                s[leader(s, upto)],
                s.len(),
            ),
        forall|j: int|
            0 <= j < leader(s, upto) ==> occurrences(s, #[trigger] s[j], s.len()) < occurrences(
                s,
                s[leader(s, upto)],
                s.len(),
            ),
    decreases upto,
{
    if upto > 1 {
        leader_is_first_mode(s, (upto - 1) as nat);
    }
}

} // verus!
