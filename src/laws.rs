//! Properties of the rain that span several ticks, frames or calls.
use vstd::prelude::*;

use crate::cell::{advanced, clamped_sub, gone, visible_len, Cell};
use crate::matrix::survivors;
use crate::render::{cell_strokes, frame_strokes, Stroke};

verus! {

/// The cell after `n` ticks on a screen of `rows` rows.
pub open spec fn after_ticks(c: Cell, rows: u16, n: nat) -> Cell
    decreases n,
{
    if n == 0 {
        c
    } else {
        advanced(after_ticks(c, rows, (n - 1) as nat), rows)
    }
}

/// A cell only ages: over any number of ticks its distance never goes
/// down, and the part of its tail that is drawn never exceeds the tail length.
pub proof fn lemma_age_only_grows(c: Cell, rows: u16, tl: u16, n: nat, m: nat)
    requires
        n <= m,
    ensures
        after_ticks(c, rows, n).distance <= after_ticks(c, rows, m).distance,
        visible_len(after_ticks(c, rows, m).distance, tl) <= tl,
    decreases m - n,
{
    if n < m {
        lemma_age_only_grows(c, rows, tl, n, (m - 1) as nat);
    }
}

/// A cell that is alive on the screen stays alive for exactly the ticks
/// that keep its head on a row of the screen: it dies on the first tick
/// that takes its head past the last row, and never comes back to life.
pub proof fn lemma_dies_once(c: Cell, rows: u16, n: nat)
    requires
        c.alive,
        c.y < rows,
    ensures
        after_ticks(c, rows, n).alive == (c.y + n < rows),
        after_ticks(c, rows, n).y == (if c.y + n <= u16::MAX { c.y + n } else { u16::MAX as int }),
    decreases n,
{
    if n > 0 {
        lemma_dies_once(c, rows, (n - 1) as nat);
    }
}

/// A dead cell receives exactly one erase, of the row `tail_length` above
/// its head, in each frame until that row is at or past the bottom; from
/// then on it receives nothing and is no longer kept in the pool.
pub proof fn lemma_dead_cell_erased_until_purged(cells: Seq<Cell>, c: Cell, tl: u16, rows: u16)
    requires
        !c.alive,
    ensures
        gone(c, tl, rows) == (clamped_sub(c.y, tl) >= rows),
        !gone(c, tl, rows) ==> cell_strokes(c, tl, rows) == seq![
            Stroke::Erase { col: c.x, row: clamped_sub(c.y, tl) },
        ],
        gone(c, tl, rows) ==> cell_strokes(c, tl, rows).len() == 0,
        survivors(cells, tl, rows).contains(c) == (cells.contains(c) && !gone(c, tl, rows)),
{
    lemma_survivors_membership(cells, c, tl, rows);
}

proof fn lemma_survivors_membership(cells: Seq<Cell>, c: Cell, tl: u16, rows: u16)
    ensures
        survivors(cells, tl, rows).contains(c) == (cells.contains(c) && !gone(c, tl, rows)),
    decreases cells.len(),
{
    if cells.len() > 0 {
        let init = cells.drop_last();
        lemma_survivors_membership(init, c, tl, rows);
        let rest = survivors(init, tl, rows);
        assert(cells =~= init.push(cells.last()));
        if cells.contains(c) && !gone(c, tl, rows) {
            if c == cells.last() {
                assert(survivors(cells, tl, rows).last() == c);
            } else {
                let k = choose|k: int| 0 <= k < cells.len() && cells[k] == c;
                assert(init[k] == c);
                let j = choose|j: int| 0 <= j < rest.len() && rest[j] == c;
                assert(survivors(cells, tl, rows)[j] == c);
            }
        }
        if survivors(cells, tl, rows).contains(c) {
            let j = choose|j: int| 0 <= j < survivors(cells, tl, rows).len() && survivors(cells, tl, rows)[j] == c;
            if j < rest.len() {
                assert(rest[j] == c);
                let k = choose|k: int| 0 <= k < init.len() && init[k] == c;
                assert(cells[k] == c);
            } else {
                assert(c == cells.last());
                assert(cells[cells.len() - 1] == c);
            }
        }
    }
}

/// Drawing a frame twice without a tick in between does the same thing
/// twice: the cells dropped after the first frame would have drawn nothing,
/// so the second frame plans the very same strokes, and it drops nothing more.
pub proof fn lemma_print_twice(cells: Seq<Cell>, tl: u16, rows: u16)
    ensures
        frame_strokes(survivors(cells, tl, rows), tl, rows) == frame_strokes(cells, tl, rows),
        survivors(survivors(cells, tl, rows), tl, rows) == survivors(cells, tl, rows),
    decreases cells.len(),
{
    if cells.len() > 0 {
        let init = cells.drop_last();
        let last = cells.last();
        lemma_print_twice(init, tl, rows);
        let rest = survivors(init, tl, rows);
        if gone(last, tl, rows) {
            assert(cell_strokes(last, tl, rows) =~= seq![]);
            assert(frame_strokes(cells, tl, rows) =~= frame_strokes(init, tl, rows));
        } else {
            let s = rest.push(last);
            assert(s.drop_last() =~= rest);
            assert(s.last() == last);
        }
    }
}

} // verus!
