//! Colours and the tail gradient.
use vstd::prelude::*;

verus! {

/// Highest level reached by the driven channel of a gradient.
pub const RAMP_TOP: u16 = 220;

/// Level of the channels that a gradient does not drive.
pub const BASE_LEVEL: u8 = 0;

/// A 24-bit colour.
#[derive(Clone, Copy, Debug, PartialEq, Eq, Structural)]
pub struct Rgb {
    pub r: u8,
    pub g: u8,
    pub b: u8,
}

/// The channel that a gradient drives.
#[derive(Clone, Copy, Debug, PartialEq, Eq, Structural)]
pub enum Hue {
    Red,
    Green,
    Blue,
}

/// Level of the driven channel at gradient index `i` of a tail of `len` rows:
/// evenly spaced steps from dim (index 0) to bright (last index).
pub open spec fn ramp_level(i: int, len: int) -> int {
    (RAMP_TOP as int / len) * (i + 1)
}

/// The colour with channel `hue` at `level` and the other two at the base level.
pub open spec fn tinted(hue: Hue, level: u8) -> Rgb {
    match hue {
        Hue::Red => Rgb { r: level, g: BASE_LEVEL, b: BASE_LEVEL },
        Hue::Green => Rgb { r: BASE_LEVEL, g: level, b: BASE_LEVEL },
        Hue::Blue => Rgb { r: BASE_LEVEL, g: BASE_LEVEL, b: level },
    }
}

/// The gradient of `len` colours for `hue`.
pub open spec fn ramp(hue: Hue, len: nat) -> Seq<Rgb> {
    Seq::new(len, |i: int| tinted(hue, ramp_level(i, len as int) as u8))
}

/// Tail length for a screen of `rows` rows: a third of the height, at least one row.
pub open spec fn tail_length_for(rows: u16) -> u16 {
    if rows / 3 == 0 { 1 } else { (rows / 3) as u16 }
}

proof fn lemma_ramp_level_bounded(i: int, len: int)
    requires
        0 <= i < len,
    ensures
        0 <= ramp_level(i, len) <= RAMP_TOP,
{
    let q = RAMP_TOP as int / len;
    assert(q * len <= RAMP_TOP) by (nonlinear_arith)
        requires q == RAMP_TOP as int / len, len > 0;
    assert(0 <= q * (i + 1) <= q * len) by (nonlinear_arith)
        requires 0 <= i < len, q >= 0;
}

/// The colour with channel `hue` at `level` and the other two at the base level.
pub fn tint(hue: Hue, level: u8) -> (c: Rgb)
    ensures
        c == tinted(hue, level),
{
    match hue {
        Hue::Red => Rgb { r: level, g: BASE_LEVEL, b: BASE_LEVEL },
        Hue::Green => Rgb { r: BASE_LEVEL, g: level, b: BASE_LEVEL },
        Hue::Blue => Rgb { r: BASE_LEVEL, g: BASE_LEVEL, b: level },
    }
}

/// Builds the gradient of `len` colours for `hue`, dim to bright.
pub fn gradient(hue: Hue, len: u16) -> (v: Vec<Rgb>)
    ensures
        v@ == ramp(hue, len as nat),
{
    let mut v: Vec<Rgb> = Vec::new();
    if len == 0 {
        assert(v@ =~= ramp(hue, 0));
        return v;
    }
    let step: u16 = RAMP_TOP / len;
    let mut i: u16 = 0;
    while i < len
        invariant
            0 < len,
            i <= len,
            step == RAMP_TOP as int / len as int,
            v@ =~= ramp(hue, len as nat).take(i as int),
        decreases len - i,
    {
        proof {
            lemma_ramp_level_bounded(i as int, len as int);
        }
        let level: u16 = step * (i + 1);
        v.push(tint(hue, level as u8));
        i = i + 1;
    }
    assert(ramp(hue, len as nat).take(len as int) =~= ramp(hue, len as nat));
    v
}

/// A tail: how many rows it spans and the colours it is drawn with.
pub struct Tail {
    pub length: u16,
    pub gradiant_colors: Vec<Rgb>,
}

impl Tail {
    /// The gradient has one colour per row, and the tail spans at least one row.
    pub open spec fn wf(&self) -> bool {
        &&& self.length >= 1
        &&& self.gradiant_colors@.len() == self.length
    }

    /// The tail for a screen of `rows` rows, drawn in `hue`.
    pub fn new(rows: u16, hue: Hue) -> (t: Tail)
        ensures
            t.wf(),
            t.length == tail_length_for(rows),
            t.gradiant_colors@ == ramp(hue, t.length as nat),
    {
        let third: u16 = rows / 3;
        let length: u16 = if third == 0 { 1 } else { third };
        Tail { length, gradiant_colors: gradient(hue, length) }
    }

    /// Replaces the gradient by the one for `hue`; the length stays.
    pub fn recolor(&mut self, hue: Hue)
        requires
            old(self).wf(),
        ensures
            final(self).wf(),
            final(self).length == old(self).length,
            final(self).gradiant_colors@ == ramp(hue, old(self).length as nat),
    {
        self.gradiant_colors = gradient(hue, self.length);
    }
}

} // verus!
