//! What a frame paints and erases.
use vstd::prelude::*;

use crate::cell::{clamped_sub, visible_len, Cell};
use crate::chance::random_below;
use crate::color::Rgb;

verus! {

/// Number of glyphs in the alphabet: the upper and lower case letters.
pub const GLYPH_COUNT: u8 = 52;

/// The glyph written to erase a screen position.
pub const BLANK: u8 = 32;

/// One operation on a screen position.
#[derive(Clone, Copy, Debug, PartialEq, Eq, Structural)]
pub enum Stroke {
    /// Write a glyph in the gradient colour at index `shade`.
    Paint { col: u16, row: u16, shade: u16 },
    /// Write a blank in the background colour.
    Erase { col: u16, row: u16 },
}

/// A stroke made concrete: the glyph and the colours written at a position.
#[derive(Clone, Copy, Debug, PartialEq, Eq, Structural)]
pub struct Draw {
    pub col: u16,
    pub row: u16,
    pub glyph: u8,
    pub fg: Rgb,
    pub bg: Rgb,
}

/// Glyph number `i` of the alphabet: `A`..`Z`, then `a`..`z`.
pub open spec fn glyph_of(i: int) -> u8 {
    if i < 26 { (65 + i) as u8 } else { (97 + (i - 26)) as u8 }
}

/// Whether `g` is a glyph of the alphabet.
pub open spec fn is_glyph(g: u8) -> bool {
    (65 <= g <= 90) || (97 <= g <= 122)
}

/// The strokes that draw one cell, for a tail of `tl` rows on a screen of `rows` rows.
/// A live cell paints its `min(distance, tl)` visible rows from the oldest
/// (offset `visible - 1` above the head, shade 0) to the head (shade
/// `visible - 1`); once its tail is sliding it also erases the row
/// `tl + 1` above the head. A dead cell erases the row `tl` above its head
/// while that row is on the screen.
pub open spec fn cell_strokes(c: Cell, tl: u16, rows: u16) -> Seq<Stroke> {
    if c.alive {
        let v = visible_len(c.distance, tl) as int;
        let paints = Seq::new(
            v as nat,
            |k: int| Stroke::Paint { col: c.x, row: (c.y - (v - 1 - k)) as u16, shade: k as u16 },
        );
        if c.distance > tl {
            paints.push(Stroke::Erase { col: c.x, row: (c.y - tl - 1) as u16 })
        } else {
            paints
        }
    } else {
        let r = clamped_sub(c.y, tl);
        if r < rows {
            seq![Stroke::Erase { col: c.x, row: r }]
        } else {
            seq![]
        }
    }
}

/// The strokes of a frame: those of each cell, in pool order.
pub open spec fn frame_strokes(cells: Seq<Cell>, tl: u16, rows: u16) -> Seq<Stroke>
    decreases cells.len(),
{
    if cells.len() == 0 {
        seq![]
    } else {
        frame_strokes(cells.drop_last(), tl, rows) + cell_strokes(cells.last(), tl, rows)
    }
}

/// Whether a stroke stays on a screen of `cols` × `rows` and names a colour
/// of a gradient of `tl` colours.
pub open spec fn on_screen(s: Stroke, cols: u16, rows: u16, tl: u16) -> bool {
    match s {
        Stroke::Paint { col, row, shade } => col < cols && row < rows && shade < tl,
        Stroke::Erase { col, row } => col < cols && row < rows,
    }
}

/// The draw that performs stroke `s` with glyph `glyph`.
pub open spec fn drawn(s: Stroke, glyph: u8, gradient: Seq<Rgb>, bg: Rgb) -> Draw {
    match s {
        Stroke::Paint { col, row, shade } => Draw { col, row, glyph, fg: gradient[shade as int], bg },
        Stroke::Erase { col, row } => Draw { col, row, glyph: BLANK, fg: bg, bg },
    }
}

/// Whether `d` performs stroke `s`: a glyph of the alphabet in the stroke's
/// gradient colour, or a blank on the background.
pub open spec fn performs(d: Draw, s: Stroke, gradient: Seq<Rgb>, bg: Rgb) -> bool {
    match s {
        Stroke::Paint { .. } => is_glyph(d.glyph) && d == drawn(s, d.glyph, gradient, bg),
        Stroke::Erase { .. } => d == drawn(s, BLANK, gradient, bg),
    }
}

proof fn lemma_cell_strokes_on_screen(c: Cell, cols: u16, rows: u16, tl: u16)
    requires
        c.fits(cols, rows),
    ensures
        forall|i: int| 0 <= i < cell_strokes(c, tl, rows).len()
            ==> #[trigger] on_screen(cell_strokes(c, tl, rows)[i], cols, rows, tl),
{
}

/// Every stroke of a frame of fitting cells stays on the screen.
pub proof fn lemma_frame_on_screen(cells: Seq<Cell>, cols: u16, rows: u16, tl: u16)
    requires
        forall|i: int| 0 <= i < cells.len() ==> #[trigger] cells[i].fits(cols, rows),
    ensures
        forall|i: int| 0 <= i < frame_strokes(cells, tl, rows).len()
            ==> #[trigger] on_screen(frame_strokes(cells, tl, rows)[i], cols, rows, tl),
    decreases cells.len(),
{
    if cells.len() > 0 {
        let init = cells.drop_last();
        assert forall|i: int| 0 <= i < init.len() implies #[trigger] init[i].fits(cols, rows) by {
            assert(init[i] == cells[i]);
        }
        lemma_frame_on_screen(init, cols, rows, tl);
        lemma_cell_strokes_on_screen(cells.last(), cols, rows, tl);
        let a = frame_strokes(init, tl, rows);
        let b = cell_strokes(cells.last(), tl, rows);
        assert forall|i: int| 0 <= i < (a + b).len() implies #[trigger] on_screen(
            (a + b)[i],
            cols,
            rows,
            tl,
        ) by {
            if i < a.len() {
                assert(on_screen(a[i], cols, rows, tl));
            } else {
                assert(on_screen(b[i - a.len()], cols, rows, tl));
            }
        }
    }
}

/// Appends the strokes of cell `c` to `out`.
pub fn push_cell_strokes(out: &mut Vec<Stroke>, c: Cell, tl: u16, cols: u16, rows: u16)
    requires
        c.fits(cols, rows),
    ensures
        final(out)@ == old(out)@ + cell_strokes(c, tl, rows),
{
    let ghost base = old(out)@;
    if c.alive {
        let v: u16 = c.visible(tl);
        let ghost paints = Seq::new(
            v as nat,
            |k: int| Stroke::Paint { col: c.x, row: (c.y - (v - 1 - k)) as u16, shade: k as u16 },
        );
        let mut k: u16 = 0;
        while k < v
            invariant
                k <= v,
                v <= c.distance <= c.y,
                out@ =~= base + paints.take(k as int),
                paints == Seq::new(
                    v as nat,
                    |k: int| Stroke::Paint { col: c.x, row: (c.y - (v - 1 - k)) as u16, shade: k as u16 },
                ),
            decreases v - k,
        {
            out.push(Stroke::Paint { col: c.x, row: c.y - (v - 1 - k), shade: k });
            k = k + 1;
            assert(paints.take(k as int) =~= paints.take(k - 1).push(paints[k - 1]));
        }
        assert(paints.take(v as int) =~= paints);
        if c.distance > tl {
            out.push(Stroke::Erase { col: c.x, row: c.y - tl - 1 });
            assert(out@ =~= base + paints.push(Stroke::Erase { col: c.x, row: (c.y - tl - 1) as u16 }));
        }
    } else {
        let r: u16 = c.y.saturating_sub(tl);
        if r < rows {
            out.push(Stroke::Erase { col: c.x, row: r });
            assert(out@ =~= base + seq![Stroke::Erase { col: c.x, row: r }]);
        } else {
            assert(out@ =~= base + seq![]);
        }
    }
}

/// The strokes of a frame for `cells`, with a tail of `tl` rows on a screen of `cols` × `rows`.
pub fn plan_frame(cells: &Vec<Cell>, tl: u16, cols: u16, rows: u16) -> (out: Vec<Stroke>)
    requires
        forall|i: int| 0 <= i < cells@.len() ==> #[trigger] cells@[i].fits(cols, rows),
    ensures
        out@ == frame_strokes(cells@, tl, rows),
        forall|i: int| 0 <= i < out@.len() ==> #[trigger] on_screen(out@[i], cols, rows, tl),
{
    let mut out: Vec<Stroke> = Vec::new();
    let mut i: usize = 0;
    while i < cells.len()
        invariant
            i <= cells@.len(),
            forall|j: int| 0 <= j < cells@.len() ==> #[trigger] cells@[j].fits(cols, rows),
            out@ == frame_strokes(cells@.take(i as int), tl, rows),
        decreases cells@.len() - i,
    {
        assert(cells@.take(i + 1).drop_last() =~= cells@.take(i as int));
        push_cell_strokes(&mut out, cells[i], tl, cols, rows);
        i = i + 1;
    }
    assert(cells@.take(i as int) =~= cells@);
    proof {
        lemma_frame_on_screen(cells@, cols, rows, tl);
    }
    out
}

/// Glyph number `i` of the alphabet.
pub fn glyph_at(i: u8) -> (g: u8)
    requires
        i < GLYPH_COUNT,
    ensures
        g == glyph_of(i as int),
        is_glyph(g),
{
    if i < 26 {
        65 + i
    } else {
        97 + (i - 26)
    }
}

/// A glyph of the alphabet, drawn uniformly at random.
pub fn generate_random_str() -> (g: u8)
    ensures
        is_glyph(g),
{
    let i: u32 = random_below(GLYPH_COUNT as u32);
    glyph_at(i as u8)
}

/// The draw that performs stroke `s` with glyph `glyph`, colours taken from
/// `gradient` and the background `bg`.
pub fn draw_stroke(s: Stroke, glyph: u8, gradient: &Vec<Rgb>, bg: Rgb) -> (d: Draw)
    requires
        s matches Stroke::Paint { shade, .. } ==> shade < gradient@.len(),
    ensures
        d == drawn(s, glyph, gradient@, bg),
{
    match s {
        Stroke::Paint { col, row, shade } => Draw { col, row, glyph, fg: gradient[shade as usize], bg },
        Stroke::Erase { col, row } => Draw { col, row, glyph: BLANK, fg: bg, bg },
    }
}

/// Performs each stroke with a fresh random glyph.
pub fn dress(strokes: &Vec<Stroke>, gradient: &Vec<Rgb>, bg: Rgb) -> (out: Vec<Draw>)
    requires
        forall|i: int| 0 <= i < strokes@.len() ==> (#[trigger] strokes@[i] matches Stroke::Paint { shade, .. } ==> shade < gradient@.len()),
    ensures
        out@.len() == strokes@.len(),
        forall|i: int| 0 <= i < out@.len() ==> #[trigger] performs(out@[i], strokes@[i], gradient@, bg),
{
    let mut out: Vec<Draw> = Vec::new();
    let mut i: usize = 0;
    while i < strokes.len()
        invariant
            i <= strokes@.len(),
            out@.len() == i,
            forall|j: int| 0 <= j < strokes@.len() ==> (#[trigger] strokes@[j] matches Stroke::Paint { shade, .. } ==> shade < gradient@.len()),
            forall|j: int| 0 <= j < i ==> #[trigger] performs(out@[j], strokes@[j], gradient@, bg),
        decreases strokes@.len() - i,
    {
        let glyph: u8 = generate_random_str();
        let s = strokes[i];
        out.push(draw_stroke(s, glyph, gradient, bg));
        i = i + 1;
    }
    out
}

} // verus!
