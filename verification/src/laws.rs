//! Global properties of the transition rule, stated and proved over the
//! grid model: determinism, toroidal adjacency, the birth rule, the 2-by-2
//! block still life, and the blinker oscillator.
use vstd::prelude::*;

use crate::life::{
    all_dead, cell_live, gun_points, lemma_gun_points_within, lemma_lidx_inverse,
    lemma_linear_to_rc, lemma_seeded_sets, lidx, live_neighbors, seeded, step, step_n, wrap_dec,
    wrap_inc,
};

verus! {

/// Determinism: the next generation is a function of the current state and
/// the dimensions alone, so equal states evolve identically for any number
/// of generations.
pub proof fn lemma_determinism(g1: Seq<bool>, g2: Seq<bool>, w: int, h: int, n: nat)
    requires
        g1 == g2,
    ensures
        step_n(g1, w, h, n) == step_n(g2, w, h, n),
{
}

/// Toroidal wrap: the cell at `(0, 0)` counts the cell at `(h-1, w-1)` among
/// its neighbors, and the other way round.
pub proof fn lemma_toroidal_wrap(g: Seq<bool>, w: int, h: int)
    requires
        1 <= w,
        1 <= h,
        g.len() == w * h,
    ensures
        cell_live(g, w, h - 1, w - 1) ==> live_neighbors(g, w, h, 0, 0) >= 1,
        cell_live(g, w, 0, 0) ==> live_neighbors(g, w, h, h - 1, w - 1) >= 1,
{
    assert(wrap_dec(0, h) == h - 1);
    assert(wrap_dec(0, w) == w - 1);
    assert(wrap_inc(h - 1, h) == 0);
    assert(wrap_inc(w - 1, w) == 0);
}

/// Birth rule: a dead cell is live after one generation exactly when it has
/// three live neighbors; with any other count it stays dead.
pub proof fn lemma_birth_rule(g: Seq<bool>, w: int, h: int, r: int, c: int)
    requires
        1 <= w,
        1 <= h,
        g.len() == w * h,
        0 <= r < h,
        0 <= c < w,
        !cell_live(g, w, r, c),
    ensures
        cell_live(step(g, w, h), w, r, c) == (live_neighbors(g, w, h, r, c) == 3),
{
    lemma_lidx_inverse(w, h, r, c);
}

/// Template seeding: the gun pattern seeded into an all-dead grid marks
/// exactly the hard-coded coordinates live and no others.
pub proof fn lemma_gun_seed_exact(w: int, h: int, k: int)
    requires
        126 <= w,
        112 <= h,
        0 <= k < w * h,
    ensures
        seeded(all_dead((w * h) as nat), w, gun_points())[k] == (exists|j: int|
            0 <= j < gun_points().len() && #[trigger] lidx(
                w,
                gun_points()[j].0 as int,
                gun_points()[j].1 as int,
            ) == k),
{
    lemma_gun_points_within();
    assert forall|j: int| 0 <= j < gun_points().len() implies 0 <= #[trigger] lidx(
        w,
        gun_points()[j].0 as int,
        gun_points()[j].1 as int,
    ) < (w * h) as nat by {
        lemma_lidx_inverse(w, h, gun_points()[j].0 as int, gun_points()[j].1 as int);
    }
    lemma_seeded_sets(all_dead((w * h) as nat), w, gun_points(), k);
}

/// A grid that one generation leaves unchanged is unchanged by any number of
/// generations.
pub proof fn lemma_still_life_forever(g: Seq<bool>, w: int, h: int, n: nat)
    requires
        step(g, w, h) == g,
    ensures
        step_n(g, w, h, n) == g,
    decreases n,
{
    if n > 0 {
        lemma_still_life_forever(g, w, h, (n - 1) as nat);
    }
}

/// Still life: a 2-by-2 block of live cells with rows `r, r+1` and columns
/// `c, c+1`, placed away from the edges in an otherwise dead grid, is
/// unchanged by one generation, hence by any number of them.
pub proof fn lemma_block_still_life(g: Seq<bool>, w: int, h: int, r: int, c: int)
    requires
        1 <= w,
        1 <= h,
        g.len() == w * h,
        1 <= r,
        r + 1 <= h - 2,
        1 <= c,
        c + 1 <= w - 2,
        forall|i: int, j: int|
            0 <= i < h && 0 <= j < w ==> #[trigger] cell_live(g, w, i, j) == (r <= i <= r + 1 && c
                <= j <= c + 1),
    ensures
        step(g, w, h) == g,
        forall|n: nat| step_n(g, w, h, n) == g,
{
    assert forall|k: int| 0 <= k < g.len() implies step(g, w, h)[k] == g[k] by {
        lemma_linear_to_rc(w, h, k);
        let i = k / w;
        let j = k % w;
        assert(cell_live(g, w, i, j) == (r <= i <= r + 1 && c <= j <= c + 1));
        assert(step(g, w, h)[k] == g[k]);
    }
    assert(step(g, w, h) =~= g);
    assert forall|n: nat| step_n(g, w, h, n) == g by {
        lemma_still_life_forever(g, w, h, n);
    }
}

/// One generation turns a horizontal blinker (row `r`, columns `c-1..c+1`,
/// away from the edges, in an otherwise dead grid) into the vertical blinker
/// with the same center: the shape rotated a quarter turn.
pub proof fn lemma_blinker_h_to_v(g: Seq<bool>, w: int, h: int, r: int, c: int)
    requires
        1 <= w,
        1 <= h,
        g.len() == w * h,
        2 <= r,
        r <= h - 3,
        2 <= c,
        c <= w - 3,
        forall|i: int, j: int|
            0 <= i < h && 0 <= j < w ==> #[trigger] cell_live(g, w, i, j) == (i == r && c - 1 <= j
                <= c + 1),
    ensures
        forall|i: int, j: int|
            0 <= i < h && 0 <= j < w ==> #[trigger] cell_live(step(g, w, h), w, i, j) == (j == c
                && r - 1 <= i <= r + 1),
{
    assert forall|i: int, j: int| 0 <= i < h && 0 <= j < w implies #[trigger] cell_live(
        step(g, w, h),
        w,
        i,
        j,
    ) == (j == c && r - 1 <= i <= r + 1) by {
        lemma_lidx_inverse(w, h, i, j);
        assert(cell_live(g, w, i, j) == (i == r && c - 1 <= j <= c + 1));
    }
}

/// One generation turns a vertical blinker (column `c`, rows `r-1..r+1`,
/// away from the edges, in an otherwise dead grid) back into the horizontal
/// blinker with the same center.
pub proof fn lemma_blinker_v_to_h(g: Seq<bool>, w: int, h: int, r: int, c: int)
    requires
        1 <= w,
        1 <= h,
        g.len() == w * h,
        2 <= r,
        r <= h - 3,
        2 <= c,
        c <= w - 3,
        forall|i: int, j: int|
            0 <= i < h && 0 <= j < w ==> #[trigger] cell_live(g, w, i, j) == (j == c && r - 1 <= i
                <= r + 1),
    ensures
        forall|i: int, j: int|
            0 <= i < h && 0 <= j < w ==> #[trigger] cell_live(step(g, w, h), w, i, j) == (i == r
                && c - 1 <= j <= c + 1),
{
    assert forall|i: int, j: int| 0 <= i < h && 0 <= j < w implies #[trigger] cell_live(
        step(g, w, h),
        w,
        i,
        j,
    ) == (i == r && c - 1 <= j <= c + 1) by {
        lemma_lidx_inverse(w, h, i, j);
        assert(cell_live(g, w, i, j) == (j == c && r - 1 <= i <= r + 1));
    }
}

/// Oscillator period: a horizontal blinker away from the edges is vertical
/// after one generation and back to its original shape after exactly two.
pub proof fn lemma_blinker_period(g: Seq<bool>, w: int, h: int, r: int, c: int)
    requires
        1 <= w,
        1 <= h,
        g.len() == w * h,
        2 <= r,
        r <= h - 3,
        2 <= c,
        c <= w - 3,
        forall|i: int, j: int|
            0 <= i < h && 0 <= j < w ==> #[trigger] cell_live(g, w, i, j) == (i == r && c - 1 <= j
                <= c + 1),
    ensures
        forall|i: int, j: int|
            0 <= i < h && 0 <= j < w ==> #[trigger] cell_live(step_n(g, w, h, 1), w, i, j) == (j
                == c && r - 1 <= i <= r + 1),
        step_n(g, w, h, 2) == g,
{
    let g1 = step(g, w, h);
    lemma_blinker_h_to_v(g, w, h, r, c);
    lemma_blinker_v_to_h(g1, w, h, r, c);
    let g2 = step(g1, w, h);
    assert(step_n(g, w, h, 0) == g);
    assert(step_n(g, w, h, 1) == g1);
    assert(step_n(g, w, h, 2) == g2);
    assert forall|k: int| 0 <= k < g.len() implies g2[k] == g[k] by {
        lemma_linear_to_rc(w, h, k);
        let i = k / w;
        let j = k % w;
        assert(cell_live(g2, w, i, j) == (i == r && c - 1 <= j <= c + 1));
        assert(cell_live(g, w, i, j) == (i == r && c - 1 <= j <= c + 1));
    }
    assert(g2 =~= g);
}

} // verus!
