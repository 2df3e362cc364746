//! The simulation state: grid dimensions plus the bit-packed cells, advanced
//! one generation at a time by `tick`.
use vstd::prelude::*;

use fixedbitset::FixedBitSet;

use crate::bitgrid::{bits, bits_clone, bits_get, bits_set, bits_with_capacity};
use crate::life::{
    all_dead, cell_char, gun_points, lemma_gun_points_within, lemma_lidx_inverse, lidx,
    live_neighbors, rendered, rendered_upto, seeded, step,
};
use vstd::string::{StrSliceExecFns, StringExecFns};

verus! {

/// Whether two string slices hold the same characters.
fn str_eq(a: &str, b: &str) -> (r: bool)
    ensures
        r == (a@ == b@),
{
    let la = a.unicode_len();
    let lb = b.unicode_len();
    if la != lb {
        return false;
    }
    let mut i: usize = 0;
    while i < la
        invariant
            la as nat == a@.len(),
            lb as nat == b@.len(),
            la == lb,
            i <= la,
            forall|k: int| 0 <= k < i as int ==> a@[k] == b@[k],
        decreases la - i,
    {
        let ca = a.get_char(i);
        let cb = b.get_char(i);
        if ca != cb {
            return false;
        }
        i = i + 1;
    }
    proof {
        assert(a@ =~= b@);
    }
    true
}

pub struct Universe {
    width: u32,
    height: u32,
    cells: FixedBitSet,
}

impl Universe {
    /// The grid width as the specification sees it.
    pub closed spec fn spec_width(self) -> u32 {
        self.width
    }

    /// The grid height as the specification sees it.
    pub closed spec fn spec_height(self) -> u32 {
        self.height
    }

    /// The cell contents as a flat boolean sequence, row-major.
    pub closed spec fn grid(self) -> Seq<bool> {
        bits(self.cells)
    }

    /// The storage always holds exactly `width * height` cells, and that
    /// count fits the index arithmetic the engine performs.
    pub open spec fn wf(self) -> bool {
        &&& self.grid().len() == self.spec_width() * self.spec_height()
        &&& self.spec_width() * self.spec_height() <= u32::MAX
    }

    /// A fresh 128 by 128 universe with every cell dead.
    pub fn new() -> (u: Universe)
        ensures
            u.wf(),
            u.spec_width() == 128,
            u.spec_height() == 128,
            u.grid() == all_dead((128 * 128) as nat),
    {
        let width: u32 = 128;
        let height: u32 = 128;
        let size: usize = (width * height) as usize;
        let cells = bits_with_capacity(size);
        let u = Universe { width, height, cells };
        proof {
            assert(u.grid() =~= all_dead((128 * 128) as nat));
        }
        u
    }

    pub fn width(&self) -> (w: u32)
        ensures
            w == self.spec_width(),
    {
        self.width
    }

    pub fn height(&self) -> (h: u32)
        ensures
            h == self.spec_height(),
    {
        self.height
    }

    /// Reallocates the storage at the current dimensions, killing every cell.
    pub fn reset_cells(&mut self)
        requires
            old(self).spec_width() * old(self).spec_height() <= u32::MAX,
        ensures
            final(self).wf(),
            final(self).spec_width() == old(self).spec_width(),
            final(self).spec_height() == old(self).spec_height(),
            final(self).grid() == all_dead(
                (old(self).spec_width() * old(self).spec_height()) as nat,
            ),
    {
        let size: usize = (self.width * self.height) as usize;
        self.cells = bits_with_capacity(size);
        proof {
            assert(self.grid() =~= all_dead(
                (self.spec_width() * self.spec_height()) as nat,
            ));
        }
    }

    /// Sets the width, then destructively clears the grid at the new size.
    pub fn set_width(&mut self, width: u32)
        requires
            width * old(self).spec_height() <= u32::MAX,
        ensures
            final(self).wf(),
            final(self).spec_width() == width,
            final(self).spec_height() == old(self).spec_height(),
            final(self).grid() == all_dead((width * old(self).spec_height()) as nat),
    {
        self.width = width;
        self.reset_cells();
    }

    /// Sets the height, then destructively clears the grid at the new size.
    pub fn set_height(&mut self, height: u32)
        requires
            old(self).spec_width() * height <= u32::MAX,
        ensures
            final(self).wf(),
            final(self).spec_width() == old(self).spec_width(),
            final(self).spec_height() == height,
            final(self).grid() == all_dead((old(self).spec_width() * height) as nat),
    {
        self.height = height;
        self.reset_cells();
    }

    /// The row-major linear index of `(row, column)`.
    fn get_index(&self, row: u32, column: u32) -> (idx: usize)
        requires
            self.wf(),
            row < self.spec_height(),
            column < self.spec_width(),
        ensures
            idx == lidx(self.spec_width() as int, row as int, column as int),
            idx < self.grid().len(),
    {
        proof {
            lemma_lidx_inverse(
                self.spec_width() as int,
                self.spec_height() as int,
                row as int,
                column as int,
            );
        }
        (row * self.width + column) as usize
    }

    /// Counts the live cells among the 8 toroidally wrapped neighbors.
    fn live_neighbor_count(&self, row: u32, column: u32) -> (n: u8)
        requires
            self.wf(),
            row < self.spec_height(),
            column < self.spec_width(),
        ensures
            n as int == live_neighbors(
                self.grid(),
                self.spec_width() as int,
                self.spec_height() as int,
                row as int,
                column as int,
            ),
            n <= 8,
    {
        let w = self.width;
        let h = self.height;
        let up: u32 = if row == 0 {
            h - 1
        } else {
            row - 1
        };
        let down: u32 = if row == h - 1 {
            0
        } else {
            row + 1
        };
        let left: u32 = if column == 0 {
            w - 1
        } else {
            column - 1
        };
        let right: u32 = if column == w - 1 {
            0
        } else {
            column + 1
        };
        let mut count: u8 = 0;
        if bits_get(&self.cells, self.get_index(up, left)) {
            count += 1;
        }
        if bits_get(&self.cells, self.get_index(up, column)) {
            count += 1;
        }
        if bits_get(&self.cells, self.get_index(up, right)) {
            count += 1;
        }
        if bits_get(&self.cells, self.get_index(row, left)) {
            count += 1;
        }
        if bits_get(&self.cells, self.get_index(row, right)) {
            count += 1;
        }
        if bits_get(&self.cells, self.get_index(down, left)) {
            count += 1;
        }
        if bits_get(&self.cells, self.get_index(down, column)) {
            count += 1;
        }
        if bits_get(&self.cells, self.get_index(down, right)) {
            count += 1;
        }
        count
    }

    /// Advances the simulation by exactly one generation: every cell is
    /// judged by the B3/S23 rule against the state all cells had before the
    /// call, then the new grid replaces the old one at once.
    pub fn tick(&mut self)
        requires
            old(self).wf(),
        ensures
            final(self).wf(),
            final(self).spec_width() == old(self).spec_width(),
            final(self).spec_height() == old(self).spec_height(),
            final(self).grid() == step(
                old(self).grid(),
                old(self).spec_width() as int,
                old(self).spec_height() as int,
            ),
    {
        let ghost g0 = self.grid();
        let ghost w = self.spec_width() as int;
        let ghost h = self.spec_height() as int;
        let mut next = bits_clone(&self.cells);
        let mut row: u32 = 0;
        while row < self.height
            invariant
                *self == *old(self),
                self.wf(),
                g0 == self.grid(),
                w == self.spec_width() as int,
                h == self.spec_height() as int,
                row <= self.spec_height(),
                bits(next).len() == g0.len(),
                forall|k: int|
                    0 <= k < row as int * w ==> bits(next)[k] == step(g0, w, h)[k],
                forall|k: int| row as int * w <= k < g0.len() ==> bits(next)[k] == g0[k],
            decreases self.spec_height() - row,
        {
            let mut col: u32 = 0;
            while col < self.width
                invariant
                    *self == *old(self),
                    self.wf(),
                    g0 == self.grid(),
                    w == self.spec_width() as int,
                    h == self.spec_height() as int,
                    row < self.spec_height(),
                    col <= self.spec_width(),
                    bits(next).len() == g0.len(),
                    forall|k: int|
                        0 <= k < row as int * w + col as int ==> bits(next)[k] == step(
                            g0,
                            w,
                            h,
                        )[k],
                    forall|k: int|
                        row as int * w + col as int <= k < g0.len() ==> bits(next)[k] == g0[k],
                decreases self.spec_width() - col,
            {
                let idx = self.get_index(row, col);
                let cell = bits_get(&self.cells, idx);
                let ln = self.live_neighbor_count(row, col);
                let alive_next = if cell {
                    ln == 2 || ln == 3
                } else {
                    ln == 3
                };
                bits_set(&mut next, idx, alive_next);
                proof {
                    lemma_lidx_inverse(w, h, row as int, col as int);
                    assert(step(g0, w, h)[idx as int] == alive_next);
                }
                col = col + 1;
            }
            proof {
                assert((row as int + 1) * w == row as int * w + w) by (nonlinear_arith);
            }
            row = row + 1;
        }
        proof {
            assert(row as int == h);
            assert(w * h == h * w) by (nonlinear_arith);
            assert forall|k: int| 0 <= k < g0.len() implies bits(next)[k] == step(g0, w, h)[k] by {
                assert(k < row as int * w);
            }
            assert(bits(next) =~= step(g0, w, h));
        }
        self.cells = next;
    }

    /// Sets each listed `(row, col)` coordinate to alive, leaving every other
    /// cell as it was.
    pub fn set_cells(&mut self, cells: &[(u32, u32)])
        requires
            old(self).wf(),
            forall|j: int|
                0 <= j < cells@.len() ==> (#[trigger] cells@[j]).0 < old(self).spec_height()
                    && cells@[j].1 < old(self).spec_width(),
        ensures
            final(self).wf(),
            final(self).spec_width() == old(self).spec_width(),
            final(self).spec_height() == old(self).spec_height(),
            final(self).grid() == seeded(
                old(self).grid(),
                old(self).spec_width() as int,
                cells@,
            ),
    {
        let ghost g0 = self.grid();
        let ghost w = self.spec_width() as int;
        let mut i: usize = 0;
        while i < cells.len()
            invariant
                self.wf(),
                self.spec_width() == old(self).spec_width(),
                self.spec_height() == old(self).spec_height(),
                g0 == old(self).grid(),
                g0.len() == self.grid().len(),
                w == self.spec_width() as int,
                i <= cells@.len(),
                forall|j: int|
                    0 <= j < cells@.len() ==> (#[trigger] cells@[j]).0 < self.spec_height()
                        && cells@[j].1 < self.spec_width(),
                self.grid() == seeded(g0, w, cells@.subrange(0, i as int)),
            decreases cells@.len() - i,
        {
            let p: (u32, u32) = *vstd::slice::slice_index_get(cells, i);
            let idx = self.get_index(p.0, p.1);
            bits_set(&mut self.cells, idx, true);
            proof {
                assert(cells@.subrange(0, i as int + 1).drop_last() =~= cells@.subrange(
                    0,
                    i as int,
                ));
                assert(cells@.subrange(0, i as int + 1).last() == cells@[i as int]);
            }
            i = i + 1;
        }
        proof {
            assert(cells@.subrange(0, cells@.len() as int) =~= cells@);
        }
    }

    /// Clears the grid, then seeds the hard-coded pattern named by `name`;
    /// an unrecognized name leaves the freshly cleared grid empty.
    pub fn set_template(&mut self, name: &str)
        requires
            old(self).spec_width() * old(self).spec_height() <= u32::MAX,
            name@ == "GriderGun"@ ==> old(self).spec_width() >= 126 && old(self).spec_height()
                >= 112,
        ensures
            final(self).wf(),
            final(self).spec_width() == old(self).spec_width(),
            final(self).spec_height() == old(self).spec_height(),
            name@ == "GriderGun"@ ==> final(self).grid() == seeded(
                all_dead((old(self).spec_width() * old(self).spec_height()) as nat),
                old(self).spec_width() as int,
                gun_points(),
            ),
            name@ != "GriderGun"@ ==> final(self).grid() == all_dead(
                (old(self).spec_width() * old(self).spec_height()) as nat,
            ),
    {
        self.reset_cells();
        if str_eq(name, "GriderGun") {
            let points: Vec<(u32, u32)> = vec![
                (2u32, 35u32),
                (3u32, 35u32),
                (3u32, 37u32),
                (4u32, 1u32),
                (4u32, 23u32),
                (4u32, 25u32),
                (4u32, 35u32),
                (4u32, 36u32),
                (5u32, 1u32),
                (5u32, 3u32),
                (5u32, 23u32),
                (5u32, 24u32),
                (6u32, 1u32),
                (6u32, 2u32),
                (6u32, 9u32),
                (6u32, 11u32),
                (6u32, 24u32),
                (6u32, 37u32),
                (6u32, 38u32),
                (6u32, 39u32),
                (7u32, 9u32),
                (7u32, 10u32),
                (7u32, 37u32),
                (8u32, 3u32),
                (8u32, 4u32),
                (8u32, 5u32),
                (8u32, 10u32),
                (8u32, 24u32),
                (8u32, 25u32),
                (8u32, 38u32),
                (9u32, 3u32),
                (9u32, 24u32),
                (9u32, 26u32),
                (9u32, 30u32),
                (10u32, 4u32),
                (10u32, 10u32),
                (10u32, 11u32),
                (10u32, 24u32),
                (10u32, 29u32),
                (10u32, 30u32),
                (11u32, 10u32),
                (11u32, 12u32),
                (11u32, 16u32),
                (11u32, 29u32),
                (11u32, 31u32),
                (12u32, 10u32),
                (12u32, 15u32),
                (12u32, 16u32),
                (12u32, 21u32),
                (12u32, 22u32),
                (13u32, 15u32),
                (13u32, 17u32),
                (13u32, 21u32),
                (13u32, 23u32),
                (14u32, 21u32),
                (15u32, 40u32),
                (15u32, 41u32),
                (16u32, 40u32),
                (16u32, 42u32),
                (17u32, 40u32),
                (20u32, 29u32),
                (20u32, 30u32),
                (20u32, 31u32),
                (21u32, 29u32),
                (22u32, 30u32),
                (108u32, 122u32),
                (108u32, 123u32),
                (109u32, 122u32),
                (109u32, 124u32),
                (110u32, 124u32),
                (111u32, 124u32),
                (111u32, 125u32),
            ];
            proof {
                assert(points@ == gun_points());
                lemma_gun_points_within();
            }
            self.set_cells(points.as_slice());
        }
    }

    /// Draws the grid as text: one line per row, top to bottom, one square
    /// character per cell, each row ended by a newline.
    pub fn render(&self) -> (s: String)
        requires
            self.wf(),
        ensures
            s@ == rendered(self.grid(), self.spec_width() as int, self.spec_height() as int),
    {
        let ghost g = self.grid();
        let ghost w = self.spec_width() as int;
        let ghost h = self.spec_height() as int;
        let mut out = String::new();
        let mut row: u32 = 0;
        while row < self.height
            invariant
                self.wf(),
                g == self.grid(),
                w == self.spec_width() as int,
                h == self.spec_height() as int,
                row <= self.spec_height(),
                out@ == rendered_upto(g, w, row as int),
            decreases self.spec_height() - row,
        {
            let mut col: u32 = 0;
            while col < self.width
                invariant
                    self.wf(),
                    g == self.grid(),
                    w == self.spec_width() as int,
                    h == self.spec_height() as int,
                    row < self.spec_height(),
                    col <= self.spec_width(),
                    out@ == rendered_upto(g, w, row as int) + Seq::new(
                        col as nat,
                        |c: int| cell_char(g[lidx(w, row as int, c)]),
                    ),
                decreases self.spec_width() - col,
            {
                let idx = self.get_index(row, col);
                if bits_get(&self.cells, idx) {
                    out.append("■");
                } else {
                    out.append("□");
                }
                proof {
                    reveal_strlit("■");
                    reveal_strlit("□");
                    assert(out@ =~= rendered_upto(g, w, row as int) + Seq::new(
                        (col + 1) as nat,
                        |c: int| cell_char(g[lidx(w, row as int, c)]),
                    ));
                }
                col = col + 1;
            }
            out.append("\n");
            proof {
                reveal_strlit("\n");
                assert(out@ =~= rendered_upto(g, w, row as int + 1));
            }
            row = row + 1;
        }
        out
    }

    /// A read-only view of the packed cell storage.
    pub fn get_cells(&self) -> (r: &FixedBitSet)
        ensures
            bits(*r) == self.grid(),
    {
        &self.cells
    }
}

} // verus!
