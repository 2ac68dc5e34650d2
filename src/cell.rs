//! A falling cell and how one tick moves it.
use vstd::prelude::*;

verus! {

/// One falling stream: a fixed column, a head row that moves down by one
/// row each tick, and the number of ticks since it was spawned.
#[derive(Clone, Copy, Debug, PartialEq, Eq, Structural)]
pub struct Cell {
    pub distance: u16,
    pub alive: bool,
    pub x: u16,
    pub y: u16,
}

/// `v + 1`, held at the largest `u16`.
pub open spec fn step_up(v: u16) -> u16 {
    if v < u16::MAX { (v + 1) as u16 } else { v }
}

/// `a - b`, held at zero.
pub open spec fn clamped_sub(a: u16, b: u16) -> u16 {
    if a >= b { (a - b) as u16 } else { 0 }
}

/// The cell after one tick on a screen of `rows` rows: one row further down,
/// one tick older, and dead once its head has left the last row.
pub open spec fn advanced(c: Cell, rows: u16) -> Cell {
    Cell {
        distance: step_up(c.distance),
        alive: c.alive && step_up(c.y) < rows,
        x: c.x,
        y: step_up(c.y),
    }
}

/// Number of tail rows drawn for a cell that has travelled `distance` rows.
pub open spec fn visible_len(distance: u16, tail_length: u16) -> u16 {
    if distance < tail_length { distance } else { tail_length }
}

/// A cell that is no longer drawn: dead, with its tail window at or past the bottom.
pub open spec fn gone(c: Cell, tail_length: u16, rows: u16) -> bool {
    !c.alive && clamped_sub(c.y, tail_length) >= rows
}

impl Cell {
    /// A cell in a pool on a screen of `cols` × `rows`: on a column of the
    /// screen, not further down than it has travelled, and on a row of the
    /// screen while alive.
    pub open spec fn fits(&self, cols: u16, rows: u16) -> bool {
        &&& self.x < cols
        &&& self.distance <= self.y
        &&& self.alive ==> self.y < rows
    }

    /// A cell just spawned at column `x`, row `y`.
    pub fn spawned(x: u16, y: u16) -> (c: Cell)
        ensures
            c == (Cell { distance: 0, alive: true, x, y }),
    {
        Cell { distance: 0, alive: true, x, y }
    }

    /// Moves the cell one row down and one tick older; it dies once its
    /// head has left the last of `rows` rows.
    pub fn tick(&mut self, rows: u16)
        ensures
            *final(self) == advanced(*old(self), rows),
            final(self).distance >= old(self).distance,
            !old(self).alive ==> !final(self).alive,
    {
        self.distance = self.distance.saturating_add(1);
        self.y = self.y.saturating_add(1);
        if self.y >= rows {
            self.alive = false;
        }
    }

    /// Number of tail rows drawn for this cell, `min(distance, tail_length)`.
    pub fn visible(&self, tail_length: u16) -> (v: u16)
        ensures
            v == visible_len(self.distance, tail_length),
            v <= tail_length,
            v <= self.distance,
    {
        if self.distance < tail_length {
            self.distance
        } else {
            tail_length
        }
    }

    /// Whether the cell is dead and nothing of its tail is left on a screen of `rows` rows.
    pub fn is_gone(&self, tail_length: u16, rows: u16) -> (r: bool)
        ensures
            r == gone(*self, tail_length, rows),
    {
        !self.alive && self.y.saturating_sub(tail_length) >= rows
    }
}

/// Ticking keeps a cell that fits the screen fitting it.
pub proof fn lemma_advanced_fits(c: Cell, cols: u16, rows: u16)
    requires
        c.fits(cols, rows),
    ensures
        advanced(c, rows).fits(cols, rows),
{
}

} // verus!
