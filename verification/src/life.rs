//! The mathematical model of the simulation: a grid is a `Seq<bool>` of
//! length `width * height`, addressed row-major, and one generation is the
//! `step` function below.
use vstd::prelude::*;
use vstd::arithmetic::div_mod::{
    lemma_fundamental_div_mod, lemma_fundamental_div_mod_converse, lemma_mod_bound,
    lemma_div_pos_is_pos,
};

verus! {

/// Toroidal step one unit towards smaller coordinates: `0` wraps to `n - 1`.
pub open spec fn wrap_dec(x: int, n: int) -> int {
    if x == 0 {
        n - 1
    } else {
        x - 1
    }
}

/// Toroidal step one unit towards larger coordinates: `n - 1` wraps to `0`.
pub open spec fn wrap_inc(x: int, n: int) -> int {
    if x == n - 1 {
        0
    } else {
        x + 1
    }
}

/// Row-major linear index of cell `(r, c)` in a grid `w` cells wide.
pub open spec fn lidx(w: int, r: int, c: int) -> int {
    r * w + c
}

/// Whether the cell at `(r, c)` is alive in grid `g` of width `w`.
pub open spec fn cell_live(g: Seq<bool>, w: int, r: int, c: int) -> bool {
    g[lidx(w, r, c)]
}

/// The numeric weight of one cell when counting neighbors.
pub open spec fn b2i(b: bool) -> int {
    if b {
        1
    } else {
        0
    }
}

/// The number of live cells among the 8 toroidal neighbors of `(r, c)`
/// in a grid of width `w` and height `h`.
pub open spec fn live_neighbors(g: Seq<bool>, w: int, h: int, r: int, c: int) -> int {
    let up = wrap_dec(r, h);
    let down = wrap_inc(r, h);
    let left = wrap_dec(c, w);
    let right = wrap_inc(c, w);
    b2i(cell_live(g, w, up, left)) + b2i(cell_live(g, w, up, c)) + b2i(
        cell_live(g, w, up, right),
    ) + b2i(cell_live(g, w, r, left)) + b2i(cell_live(g, w, r, right)) + b2i(
        cell_live(g, w, down, left),
    ) + b2i(cell_live(g, w, down, c)) + b2i(cell_live(g, w, down, right))
}

/// The B3/S23 transition rule for one cell: a live cell survives with 2 or 3
/// live neighbors, a dead cell is born with exactly 3.
pub open spec fn next_cell(live: bool, n: int) -> bool {
    if live {
        n == 2 || n == 3
    } else {
        n == 3
    }
}

/// One generation of the whole grid, every cell judged against the old state.
pub open spec fn step(g: Seq<bool>, w: int, h: int) -> Seq<bool> {
    Seq::new(g.len(), |k: int| next_cell(g[k], live_neighbors(g, w, h, k / w, k % w)))
}

/// `n` generations of the grid.
pub open spec fn step_n(g: Seq<bool>, w: int, h: int, n: nat) -> Seq<bool>
    decreases n,
{
    if n == 0 {
        g
    } else {
        step(step_n(g, w, h, (n - 1) as nat), w, h)
    }
}

/// A grid of `n` cells, all dead.
pub open spec fn all_dead(n: nat) -> Seq<bool> {
    Seq::new(n, |k: int| false)
}

/// The character drawn for one cell: a filled square for a live cell, an
/// empty square for a dead one.
pub open spec fn cell_char(live: bool) -> char {
    if live {
        '■'
    } else {
        '□'
    }
}

/// The text of one grid row: one character per column, then a newline.
pub open spec fn row_chars(g: Seq<bool>, w: int, r: int) -> Seq<char> {
    Seq::new(w as nat, |c: int| cell_char(g[lidx(w, r, c)])).push('\n')
}

/// The text of the first `r` grid rows, top to bottom.
pub open spec fn rendered_upto(g: Seq<bool>, w: int, r: int) -> Seq<char>
    decreases r,
{
    if r <= 0 {
        Seq::empty()
    } else {
        rendered_upto(g, w, r - 1) + row_chars(g, w, r - 1)
    }
}

/// The full text rendering of a grid: `h` rows, each `w` cell characters
/// followed by a newline.
pub open spec fn rendered(g: Seq<bool>, w: int, h: int) -> Seq<char> {
    rendered_upto(g, w, h)
}

/// Grid `g` after setting each listed `(row, col)` coordinate to alive,
/// in order, leaving every other cell as it was.
pub open spec fn seeded(g: Seq<bool>, w: int, pts: Seq<(u32, u32)>) -> Seq<bool>
    decreases pts.len(),
{
    if pts.len() == 0 {
        g
    } else {
        seeded(g, w, pts.drop_last()).update(
            lidx(w, pts.last().0 as int, pts.last().1 as int),
            true,
        )
    }
}

/// The hard-coded live-cell coordinates of the "GriderGun" template: a
/// glider-gun arrangement that emits traveling structures periodically.
pub open spec fn gun_points() -> Seq<(u32, u32)> {
    seq![
        (2u32, 35u32),
        (3u32, 35u32),
        (3u32, 37u32),
        (4u32, 1u32),
        (4u32, 23u32),
        (4u32, 25u32),
        (4u32, 35u32),
        (4u32, 36u32),
        (5u32, 1u32),
        (5u32, 3u32),
        (5u32, 23u32),
        (5u32, 24u32),
        (6u32, 1u32),
        (6u32, 2u32),
        (6u32, 9u32),
        (6u32, 11u32),
        (6u32, 24u32),
        (6u32, 37u32),
        (6u32, 38u32),
        (6u32, 39u32),
        (7u32, 9u32),
        (7u32, 10u32),
        (7u32, 37u32),
        (8u32, 3u32),
        (8u32, 4u32),
        (8u32, 5u32),
        (8u32, 10u32),
        (8u32, 24u32),
        (8u32, 25u32),
        (8u32, 38u32),
        (9u32, 3u32),
        (9u32, 24u32),
        (9u32, 26u32),
        (9u32, 30u32),
        (10u32, 4u32),
        (10u32, 10u32),
        (10u32, 11u32),
        (10u32, 24u32),
        (10u32, 29u32),
        (10u32, 30u32),
        (11u32, 10u32),
        (11u32, 12u32),
        (11u32, 16u32),
        (11u32, 29u32),
        (11u32, 31u32),
        (12u32, 10u32),
        (12u32, 15u32),
        (12u32, 16u32),
        (12u32, 21u32),
        (12u32, 22u32),
        (13u32, 15u32),
        (13u32, 17u32),
        (13u32, 21u32),
        (13u32, 23u32),
        (14u32, 21u32),
        (15u32, 40u32),
        (15u32, 41u32),
        (16u32, 40u32),
        (16u32, 42u32),
        (17u32, 40u32),
        (20u32, 29u32),
        (20u32, 30u32),
        (20u32, 31u32),
        (21u32, 29u32),
        (22u32, 30u32),
        (108u32, 122u32),
        (108u32, 123u32),
        (109u32, 122u32),
        (109u32, 124u32),
        (110u32, 124u32),
        (111u32, 124u32),
        (111u32, 125u32),
    ]
}

/// Every gun coordinate lies inside a grid 126 cells wide and 112 high.
#[verifier::rlimit(100)]
pub proof fn lemma_gun_points_within()
    ensures
        forall|j: int|
            0 <= j < gun_points().len() ==> ((#[trigger] gun_points()[j]).0 as int) < 112 && (
            gun_points()[j].1 as int) < 126,
{
}

/// In-range coordinates give an in-range linear index, and the division and
/// remainder by the width recover the row and column.
pub proof fn lemma_lidx_inverse(w: int, h: int, r: int, c: int)
    requires
        1 <= w,
        0 <= r < h,
        0 <= c < w,
    ensures
        0 <= lidx(w, r, c) < w * h,
        lidx(w, r, c) / w == r,
        lidx(w, r, c) % w == c,
{
    lemma_fundamental_div_mod_converse(r * w + c, w, r, c);
    assert(0 <= r * w + c < w * h) by (nonlinear_arith)
        requires
            1 <= w,
            0 <= r < h,
            0 <= c < w,
    ;
}

/// Every in-range linear index comes from a unique in-range `(row, col)` pair.
pub proof fn lemma_linear_to_rc(w: int, h: int, k: int)
    requires
        1 <= w,
        1 <= h,
        0 <= k < w * h,
    ensures
        0 <= k / w < h,
        0 <= k % w < w,
        k == lidx(w, k / w, k % w),
{
    lemma_fundamental_div_mod(k, w);
    lemma_mod_bound(k, w);
    lemma_div_pos_is_pos(k, w);
    assert(w * (k / w) == (k / w) * w) by (nonlinear_arith);
    assert(k / w < h) by (nonlinear_arith)
        requires
            1 <= w,
            0 <= k < w * h,
            k == w * (k / w) + (k % w),
            0 <= k % w < w,
            0 <= k / w,
    ;
}

/// Seeding in-range coordinates never changes the number of cells.
pub proof fn lemma_seeded_len(g: Seq<bool>, w: int, pts: Seq<(u32, u32)>)
    requires
        forall|j: int|
            0 <= j < pts.len() ==> 0 <= #[trigger] lidx(w, pts[j].0 as int, pts[j].1 as int)
                < g.len(),
    ensures
        seeded(g, w, pts).len() == g.len(),
    decreases pts.len(),
{
    if pts.len() > 0 {
        assert(forall|j: int| 0 <= j < pts.drop_last().len() ==> pts.drop_last()[j] == pts[j]);
        lemma_seeded_len(g, w, pts.drop_last());
        assert(lidx(w, pts[pts.len() - 1].0 as int, pts[pts.len() - 1].1 as int) < g.len());
    }
}

/// Seeding sets exactly the listed coordinates: a cell is alive afterwards
/// if and only if it was alive before or its linear index is listed.
pub proof fn lemma_seeded_sets(g: Seq<bool>, w: int, pts: Seq<(u32, u32)>, k: int)
    requires
        0 <= k < g.len(),
        forall|j: int|
            0 <= j < pts.len() ==> 0 <= #[trigger] lidx(w, pts[j].0 as int, pts[j].1 as int)
                < g.len(),
    ensures
        seeded(g, w, pts)[k] == (g[k] || exists|j: int|
            0 <= j < pts.len() && #[trigger] lidx(w, pts[j].0 as int, pts[j].1 as int) == k),
    decreases pts.len(),
{
    if pts.len() > 0 {
        assert(forall|j: int| 0 <= j < pts.drop_last().len() ==> pts.drop_last()[j] == pts[j]);
        lemma_seeded_len(g, w, pts.drop_last());
        lemma_seeded_sets(g, w, pts.drop_last(), k);
        let last = lidx(w, pts.last().0 as int, pts.last().1 as int);
        if last == k {
            assert(seeded(g, w, pts)[k]);
            assert(lidx(w, pts[pts.len() - 1].0 as int, pts[pts.len() - 1].1 as int) == k);
        } else {
            assert(seeded(g, w, pts)[k] == seeded(g, w, pts.drop_last())[k]);
            assert((exists|j: int|
                0 <= j < pts.drop_last().len() && #[trigger] lidx(
                    w,
                    pts.drop_last()[j].0 as int,
                    pts.drop_last()[j].1 as int,
                ) == k) == (exists|j: int|
                0 <= j < pts.len() && #[trigger] lidx(w, pts[j].0 as int, pts[j].1 as int) == k));
        }
    }
}

} // verus!
