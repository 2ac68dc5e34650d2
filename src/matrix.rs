//! The rain: screen geometry, the pool of falling cells, and the frame step.
use vstd::prelude::*;

use crate::cell::{advanced, gone, lemma_advanced_fits, Cell};
use crate::chance::random_below;
use crate::color::{ramp, tail_length_for, Hue, Rgb, Tail};
use crate::render::{dress, frame_strokes, performs, plan_frame, Draw, Stroke, BLANK};

verus! {

/// Percentage scale that the spawn probability is drawn against.
pub const PERCENT: u32 = 100;

/// Rows of the top band, one in this many, that new cells start in.
pub const SPAWN_BAND: u16 = 10;

/// The cells of `cells` that are still drawn, in pool order.
pub open spec fn survivors(cells: Seq<Cell>, tl: u16, rows: u16) -> Seq<Cell>
    decreases cells.len(),
{
    if cells.len() == 0 {
        seq![]
    } else {
        let rest = survivors(cells.drop_last(), tl, rows);
        if gone(cells.last(), tl, rows) {
            rest
        } else {
            rest.push(cells.last())
        }
    }
}

/// A cell as `spawn` makes it: just spawned, on a column of the screen and
/// in the top band of `rows` rows.
pub open spec fn fresh(c: Cell, cols: u16, rows: u16) -> bool {
    &&& c.distance == 0
    &&& c.alive
    &&& c.x < cols
    &&& c.y <= rows / SPAWN_BAND
}

/// A cell as one `spawn` then one `tick` leave it: one row below a row of
/// the top band, on a column of the screen, one tick old.
pub open spec fn spawned_then_ticked(c: Cell, cols: u16, rows: u16) -> bool {
    &&& c.distance == 1
    &&& c.x < cols
    &&& 1 <= c.y <= rows / SPAWN_BAND + 1
    &&& c.alive == (c.y < rows)
}

/// Every survivor is a cell of the pool, and there are no more of them.
pub proof fn lemma_survivors_from(cells: Seq<Cell>, tl: u16, rows: u16)
    ensures
        survivors(cells, tl, rows).len() <= cells.len(),
        forall|i: int| 0 <= i < survivors(cells, tl, rows).len()
            ==> cells.contains(#[trigger] survivors(cells, tl, rows)[i]),
        forall|i: int| 0 <= i < survivors(cells, tl, rows).len()
            ==> !gone(#[trigger] survivors(cells, tl, rows)[i], tl, rows),
    decreases cells.len(),
{
    if cells.len() > 0 {
        let init = cells.drop_last();
        lemma_survivors_from(init, tl, rows);
        let s = survivors(cells, tl, rows);
        assert forall|i: int| 0 <= i < s.len() implies cells.contains(#[trigger] s[i]) by {
            if i < survivors(init, tl, rows).len() {
                let k = choose|k: int| 0 <= k < init.len() && init[k] == s[i];
                assert(cells[k] == s[i]);
            } else {
                assert(cells[cells.len() - 1] == s[i]);
            }
        }
    }
}

/// The draw that writes a blank on background `bg` at column `x`, row `y`.
pub open spec fn blank_at(x: u16, y: u16, bg: Rgb) -> Draw {
    Draw { col: x, row: y, glyph: BLANK, fg: bg, bg }
}

/// A keyboard command.
#[derive(Clone, Copy, Debug, PartialEq, Eq, Structural)]
pub enum Command {
    Quit,
    TogglePause,
    Recolor(Hue),
    Ignore,
}

/// The command bound to a key: `q` quits, `p` pauses or resumes, `r`, `g`
/// and `b` recolour the tails; every other key is ignored.
pub open spec fn command_of(key: char) -> Command {
    if key == 'q' {
        Command::Quit
    } else if key == 'p' {
        Command::TogglePause
    } else if key == 'r' {
        Command::Recolor(Hue::Red)
    } else if key == 'g' {
        Command::Recolor(Hue::Green)
    } else if key == 'b' {
        Command::Recolor(Hue::Blue)
    } else {
        Command::Ignore
    }
}

/// The command bound to `key`.
pub fn command_for(key: char) -> (c: Command)
    ensures
        c == command_of(key),
{
    if key == 'q' {
        Command::Quit
    } else if key == 'p' {
        Command::TogglePause
    } else if key == 'r' {
        Command::Recolor(Hue::Red)
    } else if key == 'g' {
        Command::Recolor(Hue::Green)
    } else if key == 'b' {
        Command::Recolor(Hue::Blue)
    } else {
        Command::Ignore
    }
}

/// The state of the rain on a screen of `cols` × `rows`.
pub struct Matrix {
    pub cols: u16,
    pub rows: u16,
    pub background: Rgb,
    /// Time between two frames, in milliseconds.
    pub speed_ms: u64,
    pub max_cells: usize,
    pub cells: Vec<Cell>,
    pub tail: Tail,
    /// Chance, in percent, that one more cell is spawned in the same frame.
    pub spawn_prob: u8,
    pub paused: bool,
}

impl Matrix {
    /// The tail is well formed, the pool within its cap, and every cell on the screen.
    pub open spec fn wf(&self) -> bool {
        &&& self.tail.wf()
        &&& self.cells@.len() <= self.max_cells
        &&& forall|i: int| 0 <= i < self.cells@.len() ==> #[trigger] self.cells@[i].fits(self.cols, self.rows)
    }

    /// Everything but the pool is the same in `self` and `o`.
    pub open spec fn same_setup(&self, o: &Matrix) -> bool {
        &&& self.cols == o.cols
        &&& self.rows == o.rows
        &&& self.background == o.background
        &&& self.speed_ms == o.speed_ms
        &&& self.max_cells == o.max_cells
        &&& self.tail.length == o.tail.length
        &&& self.tail.gradiant_colors@ == o.tail.gradiant_colors@
        &&& self.spawn_prob == o.spawn_prob
        &&& self.paused == o.paused
    }

    /// An empty rain on a screen of `cols` × `rows`, with a tail a third of
    /// the height drawn in `hue`.
    pub fn new(
        cols: u16,
        rows: u16,
        background: Rgb,
        speed_ms: u64,
        max_cells: usize,
        spawn_prob: u8,
        hue: Hue,
    ) -> (m: Matrix)
        ensures
            m.wf(),
            m.cols == cols,
            m.rows == rows,
            m.background == background,
            m.speed_ms == speed_ms,
            m.max_cells == max_cells,
            m.cells@.len() == 0,
            m.tail.length == tail_length_for(rows),
            m.tail.gradiant_colors@ == ramp(hue, m.tail.length as nat),
            m.spawn_prob == spawn_prob,
            !m.paused,
    {
        Matrix {
            cols,
            rows,
            background,
            speed_ms,
            max_cells,
            cells: Vec::new(),
            tail: Tail::new(rows, hue),
            spawn_prob,
            paused: false,
        }
    }

    /// Adds a cell just spawned at column `x`, row `y`, if the pool has room
    /// and the position is on the screen; says whether it did.
    pub fn admit_cell(&mut self, x: u16, y: u16) -> (added: bool)
        requires
            old(self).wf(),
        ensures
            final(self).wf(),
            final(self).same_setup(old(self)),
            added == (old(self).cells@.len() < old(self).max_cells && x < old(self).cols && y
                < old(self).rows),
            added ==> final(self).cells@ == old(self).cells@.push(
                Cell { distance: 0, alive: true, x, y },
            ),
            !added ==> final(self).cells@ == old(self).cells@,
    {
        if self.cells.len() < self.max_cells && x < self.cols && y < self.rows {
            self.cells.push(Cell::spawned(x, y));
            true
        } else {
            false
        }
    }

    /// Spawns cells: at least one, then one more each time a draw out of
    /// one hundred is at most the spawn probability, each at a random column
    /// and a random row of the top band. Cells beyond the cap are dropped, so
    /// a full pool, or a screen without rows or columns, is left as it is.
    pub fn spawn(&mut self)
        requires
            old(self).wf(),
        ensures
            final(self).wf(),
            final(self).same_setup(old(self)),
            final(self).cells@.len() >= old(self).cells@.len(),
            forall|i: int| 0 <= i < old(self).cells@.len() ==> final(self).cells@[i] == old(self).cells@[i],
            forall|i: int| old(self).cells@.len() <= i < final(self).cells@.len()
                ==> fresh(#[trigger] final(self).cells@[i], old(self).cols, old(self).rows),
            old(self).cells@.len() >= old(self).max_cells ==> final(self).cells@ == old(self).cells@,
            old(self).cells@.len() < old(self).max_cells && old(self).cols > 0 && old(self).rows > 0
                ==> final(self).cells@.len() > old(self).cells@.len(),
    {
        if self.cols == 0 || self.rows == 0 || self.cells.len() >= self.max_cells {
            return;
        }
        let ghost start = self.cells@;
        let mut more: bool = true;
        while more && self.cells.len() < self.max_cells
            invariant
                self.wf(),
                self.same_setup(old(self)),
                self.cols > 0,
                self.rows > 0,
                start == old(self).cells@,
                start.len() < self.max_cells,
                self.cells@.len() >= start.len(),
                forall|i: int| 0 <= i < start.len() ==> self.cells@[i] == start[i],
                forall|i: int| start.len() <= i < self.cells@.len()
                    ==> fresh(#[trigger] self.cells@[i], self.cols, self.rows),
                !more ==> self.cells@.len() > start.len(),
            decreases self.max_cells - self.cells@.len(),
        {
            let x: u16 = random_below(self.cols as u32) as u16;
            let y: u16 = random_below((self.rows / SPAWN_BAND) as u32 + 1) as u16;
            let ghost before = self.cells@;
            self.admit_cell(x, y);
            assert(self.cells@ == before.push(Cell { distance: 0, alive: true, x, y }));
            let dice: u32 = random_below(PERCENT);
            more = dice <= self.spawn_prob as u32;
        }
    }

    /// Moves every cell one row down and one tick older.
    pub fn tick(&mut self)
        requires
            old(self).wf(),
        ensures
            final(self).wf(),
            final(self).same_setup(old(self)),
            final(self).cells@.len() == old(self).cells@.len(),
            forall|i: int| 0 <= i < old(self).cells@.len()
                ==> #[trigger] final(self).cells@[i] == advanced(old(self).cells@[i], old(self).rows),
    {
        let rows: u16 = self.rows;
        let mut i: usize = 0;
        while i < self.cells.len()
            invariant
                self.wf(),
                self.same_setup(old(self)),
                rows == self.rows,
                i <= self.cells@.len(),
                self.cells@.len() == old(self).cells@.len(),
                forall|j: int| 0 <= j < i ==> #[trigger] self.cells@[j] == advanced(old(self).cells@[j], rows),
                forall|j: int| i <= j < self.cells@.len() ==> #[trigger] self.cells@[j] == old(self).cells@[j],
            decreases self.cells@.len() - i,
        {
            let mut c = self.cells[i];
            proof {
                lemma_advanced_fits(c, self.cols, rows);
            }
            c.tick(rows);
            self.cells[i] = c;
            assert(forall|j: int| 0 <= j < self.cells@.len() ==> #[trigger] self.cells@[j].fits(self.cols, self.rows));
            i = i + 1;
        }
    }

    /// Drops the cells that are dead and have nothing left on the screen.
    pub fn prune(&mut self)
        requires
            old(self).wf(),
        ensures
            final(self).wf(),
            final(self).same_setup(old(self)),
            final(self).cells@ == survivors(old(self).cells@, old(self).tail.length, old(self).rows),
    {
        let tl: u16 = self.tail.length;
        let rows: u16 = self.rows;
        let mut kept: Vec<Cell> = Vec::new();
        let mut i: usize = 0;
        while i < self.cells.len()
            invariant
                self.wf(),
                tl == self.tail.length,
                rows == self.rows,
                i <= self.cells@.len(),
                kept@ == survivors(self.cells@.take(i as int), tl, rows),
            decreases self.cells@.len() - i,
        {
            assert(self.cells@.take(i + 1).drop_last() =~= self.cells@.take(i as int));
            let c = self.cells[i];
            if !c.is_gone(tl, rows) {
                kept.push(c);
            }
            i = i + 1;
        }
        assert(self.cells@.take(i as int) =~= self.cells@);
        proof {
            lemma_survivors_from(self.cells@, tl, rows);
        }
        self.cells = kept;
    }

    /// Draws one frame: every cell's strokes, each paint with a fresh random
    /// glyph; then drops the cells that this frame erased for the last time.
    pub fn print(&mut self) -> (draws: Vec<Draw>)
        requires
            old(self).wf(),
        ensures
            final(self).wf(),
            final(self).same_setup(old(self)),
            final(self).cells@ == survivors(old(self).cells@, old(self).tail.length, old(self).rows),
            draws@.len() == frame_strokes(old(self).cells@, old(self).tail.length, old(self).rows).len(),
            forall|i: int| 0 <= i < draws@.len() ==> #[trigger] performs(
                draws@[i],
                frame_strokes(old(self).cells@, old(self).tail.length, old(self).rows)[i],
                old(self).tail.gradiant_colors@,
                old(self).background,
            ),
            forall|i: int| 0 <= i < draws@.len() ==> #[trigger] draws@[i].col < old(self).cols
                && draws@[i].row < old(self).rows,
    {
        let strokes = plan_frame(&self.cells, self.tail.length, self.cols, self.rows);
        assert forall|i: int| 0 <= i < strokes@.len() implies (#[trigger] strokes@[i] matches Stroke::Paint { shade, .. } ==> shade < self.tail.gradiant_colors@.len()) by {
            assert(crate::render::on_screen(strokes@[i], self.cols, self.rows, self.tail.length));
        }
        let draws = dress(&strokes, &self.tail.gradiant_colors, self.background);
        assert forall|i: int| 0 <= i < draws@.len() implies #[trigger] draws@[i].col < self.cols
            && draws@[i].row < self.rows by {
            assert(performs(draws@[i], strokes@[i], self.tail.gradiant_colors@, self.background));
            assert(crate::render::on_screen(strokes@[i], self.cols, self.rows, self.tail.length));
        }
        self.prune();
        draws
    }

    /// Replaces the tail's gradient by the one for `hue`; the cells and the
    /// tail length stay as they are.
    pub fn recolor(&mut self, hue: Hue)
        requires
            old(self).wf(),
        ensures
            final(self).wf(),
            final(self).cells@ == old(self).cells@,
            final(self).tail.length == old(self).tail.length,
            final(self).tail.gradiant_colors@ == ramp(hue, old(self).tail.length as nat),
            final(self).cols == old(self).cols,
            final(self).rows == old(self).rows,
            final(self).background == old(self).background,
            final(self).speed_ms == old(self).speed_ms,
            final(self).max_cells == old(self).max_cells,
            final(self).spawn_prob == old(self).spawn_prob,
            final(self).paused == old(self).paused,
    {
        self.tail.recolor(hue);
    }

    /// One frame step, unless paused: draw (`print`), then `spawn`, then `tick`.
    /// Paused, nothing is drawn and nothing moves.
    pub fn frame(&mut self) -> (draws: Vec<Draw>)
        requires
            old(self).wf(),
        ensures
            final(self).wf(),
            final(self).same_setup(old(self)),
            old(self).paused ==> draws@.len() == 0 && final(self).cells@ == old(self).cells@,
            !old(self).paused ==> draws@.len() == frame_strokes(
                old(self).cells@,
                old(self).tail.length,
                old(self).rows,
            ).len(),
            !old(self).paused ==> forall|i: int| 0 <= i < draws@.len() ==> #[trigger] performs(
                draws@[i],
                frame_strokes(old(self).cells@, old(self).tail.length, old(self).rows)[i],
                old(self).tail.gradiant_colors@,
                old(self).background,
            ),
            !old(self).paused ==> ({
                let kept = survivors(old(self).cells@, old(self).tail.length, old(self).rows);
                &&& final(self).cells@.len() >= kept.len()
                &&& forall|i: int| 0 <= i < kept.len()
                    ==> #[trigger] final(self).cells@[i] == advanced(kept[i], old(self).rows)
                &&& forall|i: int| kept.len() <= i < final(self).cells@.len()
                    ==> #[trigger] spawned_then_ticked(final(self).cells@[i], old(self).cols, old(self).rows)
            }),
    {
        if self.paused {
            return Vec::new();
        }
        let draws = self.print();
        let ghost kept = self.cells@;
        self.spawn();
        let ghost spawned = self.cells@;
        self.tick();
        assert forall|i: int| kept.len() <= i < self.cells@.len() implies #[trigger] spawned_then_ticked(
            self.cells@[i],
            self.cols,
            self.rows,
        ) by {
            assert(fresh(spawned[i], self.cols, self.rows));
            assert(self.cells@[i] == advanced(spawned[i], self.rows));
        }
        assert forall|i: int| 0 <= i < kept.len() implies #[trigger] self.cells@[i] == advanced(
            kept[i],
            self.rows,
        ) by {
            assert(self.cells@[i] == advanced(spawned[i], self.rows));
        }
        draws
    }

    /// Carries out a keyboard command; says whether the rain goes on.
    pub fn apply(&mut self, cmd: Command) -> (running: bool)
        requires
            old(self).wf(),
        ensures
            final(self).wf(),
            running == (cmd != Command::Quit),
            final(self).cells@ == old(self).cells@,
            final(self).cols == old(self).cols,
            final(self).rows == old(self).rows,
            final(self).background == old(self).background,
            final(self).speed_ms == old(self).speed_ms,
            final(self).max_cells == old(self).max_cells,
            final(self).spawn_prob == old(self).spawn_prob,
            final(self).tail.length == old(self).tail.length,
            final(self).paused == (if cmd == Command::TogglePause {
                !old(self).paused
            } else {
                old(self).paused
            }),
            final(self).tail.gradiant_colors@ == (match cmd {
                Command::Recolor(hue) => ramp(hue, old(self).tail.length as nat),
                _ => old(self).tail.gradiant_colors@,
            }),
    {
        match cmd {
            Command::Quit => false,
            Command::TogglePause => {
                self.paused = !self.paused;
                true
            },
            Command::Recolor(hue) => {
                self.recolor(hue);
                true
            },
            Command::Ignore => true,
        }
    }

    /// Carries out the command bound to `key`; says whether the rain goes on.
    pub fn handle_key(&mut self, key: char) -> (running: bool)
        requires
            old(self).wf(),
        ensures
            final(self).wf(),
            running == (command_of(key) != Command::Quit),
            final(self).cells@ == old(self).cells@,
            final(self).tail.length == old(self).tail.length,
            final(self).paused == (if command_of(key) == Command::TogglePause {
                !old(self).paused
            } else {
                old(self).paused
            }),
            final(self).tail.gradiant_colors@ == (match command_of(key) {
                Command::Recolor(hue) => ramp(hue, old(self).tail.length as nat),
                _ => old(self).tail.gradiant_colors@,
            }),
    {
        let cmd = command_for(key);
        self.apply(cmd)
    }

    /// The draws that paint the whole screen in the background colour, row by row.
    pub fn clear_background(&self) -> (screen: Vec<Vec<Draw>>)
        ensures
            screen@.len() == self.rows,
            forall|y: int| 0 <= y < self.rows ==> (#[trigger] screen@[y])@.len() == self.cols,
            forall|y: int, x: int| 0 <= y < self.rows && 0 <= x < self.cols ==> #[trigger] screen@[y]@[x]
                == blank_at(x as u16, y as u16, self.background),
    {
        let mut screen: Vec<Vec<Draw>> = Vec::new();
        let mut y: u16 = 0;
        while y < self.rows
            invariant
                y <= self.rows,
                screen@.len() == y,
                forall|r: int| 0 <= r < y ==> (#[trigger] screen@[r])@.len() == self.cols,
                forall|r: int, x: int| 0 <= r < y && 0 <= x < self.cols ==> #[trigger] screen@[r]@[x]
                    == blank_at(x as u16, r as u16, self.background),
            decreases self.rows - y,
        {
            let mut line: Vec<Draw> = Vec::new();
            let mut x: u16 = 0;
            while x < self.cols
                invariant
                    x <= self.cols,
                    line@.len() == x,
                    forall|c: int| 0 <= c < x ==> #[trigger] line@[c] == blank_at(c as u16, y, self.background),
                decreases self.cols - x,
            {
                line.push(Draw { col: x, row: y, glyph: BLANK, fg: self.background, bg: self.background });
                x = x + 1;
            }
            screen.push(line);
            y = y + 1;
        }
        screen
    }

} // impl Matrix

} // verus!
