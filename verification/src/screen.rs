//! One cell of the screen as yards draw into it: the nearest fill and the
//! nearest stroke reported for the cell, and what the cell finally shows.

use crate::palette::{FillColor, PairIndex, Palette, StrokeColor};
use vstd::prelude::*;

verus! {

/// What has been drawn into one cell so far: the nearest fill and its depth,
/// and the nearest stroke (a glyph in a colour) and its depth.
#[derive(Copy, Clone, Debug)]
pub struct SpotStack {
    pub fill_color: FillColor,
    pub fill_z: i32,
    pub stroke: Option<(char, StrokeColor)>,
    pub stroke_z: i32,
}

/// What a cell shows: its stroke when one was drawn no farther back than the
/// fill, and otherwise a blank in the body colour.
pub open spec fn spec_shown(s: SpotStack) -> (char, StrokeColor, FillColor) {
    match s.stroke {
        Some((glyph, color)) => if s.stroke_z <= s.fill_z {
            (glyph, color, s.fill_color)
        } else {
            (' ', StrokeColor::Body, s.fill_color)
        },
        None => (' ', StrokeColor::Body, s.fill_color),
    }
}

/// The cell after a fill at depth `z`: it covers the cell's fill unless
/// that is nearer.
pub open spec fn spec_with_fill(s: SpotStack, color: FillColor, z: i32) -> SpotStack {
    if z <= s.fill_z {
        SpotStack { fill_color: color, fill_z: z, ..s }
    } else {
        s
    }
}

/// The cell after a stroke at depth `z`: it covers the cell's stroke unless
/// that is nearer.
pub open spec fn spec_with_stroke(s: SpotStack, glyph: char, color: StrokeColor, z: i32) -> SpotStack {
    if z <= s.stroke_z {
        SpotStack { stroke: Some((glyph, color)), stroke_z: z, ..s }
    } else {
        s
    }
}

impl SpotStack {
    /// An untouched cell: background fill, no stroke, both infinitely far.
    pub fn new() -> (r: SpotStack)
        ensures
            r == (SpotStack { fill_color: FillColor::Background, fill_z: i32::MAX, stroke: None, stroke_z: i32::MAX }),
    {
        SpotStack { fill_color: FillColor::Background, fill_z: i32::MAX, stroke: None, stroke_z: i32::MAX }
    }

    /// A fill at depth `z` covers the cell's fill unless that is nearer.
    pub fn set_fill(&mut self, color: FillColor, z: i32)
        ensures
            *final(self) == spec_with_fill(*old(self), color, z),
    {
        if z <= self.fill_z {
            self.fill_z = z;
            self.fill_color = color;
        }
    }

    /// A stroke at depth `z` covers the cell's stroke unless that is nearer.
    pub fn set_stroke(&mut self, glyph: char, color: StrokeColor, z: i32)
        ensures
            *final(self) == spec_with_stroke(*old(self), glyph, color, z),
    {
        if z <= self.stroke_z {
            self.stroke_z = z;
            self.stroke = Some((glyph, color));
        }
    }

    /// What the cell shows: its glyph, stroke colour and fill colour.
    pub fn shown(&self) -> (r: (char, StrokeColor, FillColor))
        ensures
            r == spec_shown(*self),
    {
        match self.stroke {
            None => (' ', StrokeColor::Body, self.fill_color),
            Some((glyph, color)) => if self.stroke_z <= self.fill_z {
                (glyph, color, self.fill_color)
            } else {
                (' ', StrokeColor::Body, self.fill_color)
            },
        }
    }

    /// The glyph the cell shows and the colour pair to show it in.
    pub fn color_pair_index_and_glyph(&self, palette: &mut Palette) -> (r: (PairIndex, char))
        requires
            old(palette).wf(),
        ensures
            final(palette).wf(),
            r.1 == spec_shown(*self).0,
            final(palette).spec_pair(spec_shown(*self).1, spec_shown(*self).2) == Some(r.0.index),
            r.0.fresh == (old(palette).spec_pair(spec_shown(*self).1, spec_shown(*self).2) is None),
    {
        let (glyph, stroke_color, fill_color) = self.shown();
        let pair = palette.color_pair_index(stroke_color, fill_color);
        (pair, glyph)
    }
}

/// Drawings at different depths leave a cell the same in whichever order
/// they come: the nearest fill and the nearest stroke win.
pub proof fn lemma_drawing_order_free(
    s: SpotStack,
    a: FillColor,
    za: i32,
    b: FillColor,
    zb: i32,
    g: char,
    c: StrokeColor,
    zg: i32,
    h: char,
    d: StrokeColor,
    zh: i32,
)
    requires
        za != zb,
        zg != zh,
    ensures
        spec_with_fill(spec_with_fill(s, a, za), b, zb) == spec_with_fill(spec_with_fill(s, b, zb), a, za),
        spec_with_stroke(spec_with_stroke(s, g, c, zg), h, d, zh) == spec_with_stroke(
            spec_with_stroke(s, h, d, zh),
            g,
            c,
            zg,
        ),
        spec_with_fill(spec_with_stroke(s, g, c, zg), a, za) == spec_with_stroke(spec_with_fill(s, a, za), g, c, zg),
{
}

/// A cell shows the stroke drawn into it whenever that stroke is no
/// farther back than the fill, and a blank otherwise; the fill colour is
/// always the nearest fill's.
pub proof fn lemma_shown_stroke(s: SpotStack)
    ensures
        match s.stroke {
            Some((g, c)) => s.stroke_z <= s.fill_z ==> spec_shown(s) == (g, c, s.fill_color),
            None => spec_shown(s) == (' ', StrokeColor::Body, s.fill_color),
        },
        s.stroke_z > s.fill_z ==> spec_shown(s) == (' ', StrokeColor::Body, s.fill_color),
{
}

/// A stroke drawn at the depth of a fill, both nearer than what the cell
/// held, shows over that fill, whichever was drawn first.
pub proof fn lemma_stroke_at_fill_depth_shows(
    s: SpotStack,
    fill: FillColor,
    glyph: char,
    color: StrokeColor,
    z: i32,
)
    requires
        z <= s.fill_z,
        z <= s.stroke_z,
    ensures
        spec_shown(spec_with_stroke(spec_with_fill(s, fill, z), glyph, color, z)) == (glyph, color, fill),
        spec_shown(spec_with_fill(spec_with_stroke(s, glyph, color, z), fill, z)) == (glyph, color, fill),
{
}

/// The nearest drawing wins a cell: after two fills (or two strokes), both
/// nearer than what the cell held, the cell keeps the nearer one, and the
/// later one where they are at the same depth.
pub proof fn lemma_nearest_drawing_wins(
    s: SpotStack,
    a: FillColor,
    za: i32,
    b: FillColor,
    zb: i32,
    g: char,
    c: StrokeColor,
    zg: i32,
    h: char,
    d: StrokeColor,
    zh: i32,
)
    requires
        za <= s.fill_z,
        zb <= s.fill_z,
        zg <= s.stroke_z,
        zh <= s.stroke_z,
    ensures
        ({
            let filled = spec_with_fill(spec_with_fill(s, a, za), b, zb);
            &&& filled.fill_z == (if za < zb { za } else { zb })
            &&& filled.fill_color == (if za < zb { a } else { b })
        }),
        ({
            let stroked = spec_with_stroke(spec_with_stroke(s, g, c, zg), h, d, zh);
            &&& stroked.stroke_z == (if zg < zh { zg } else { zh })
            &&& stroked.stroke == Some(if zg < zh { (g, c) } else { (h, d) })
        }),
{
}

} // verus!
