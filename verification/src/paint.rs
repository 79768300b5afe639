//! Painting laid-out yards into the cells of a screen: what each yard draws
//! into the cell at a row and column, and whole screens of such cells, row
//! by row.

use crate::bounds::{Bounds, BoundsHold};
use crate::palette::{FillColor, StrokeColor};
use crate::screen::{spec_with_fill, spec_with_stroke, SpotStack};
use crate::layout::Yard;
use crate::textfield::{is_control, spec_is_control, BodyView, TextfieldView};
use crate::yards::{GlyphYard, LabelYard};
use vstd::prelude::*;

verus! {

/// A cell nothing has been drawn into.
pub open spec fn blank() -> SpotStack {
    SpotStack { fill_color: FillColor::Background, fill_z: i32::MAX, stroke: None, stroke_z: i32::MAX }
}

/// `hold` records a region for yard `id`.
pub open spec fn has_region(hold: BoundsHold, id: i32) -> bool {
    hold.spec_map().contains_key(id) && hold.spec_map()[id] < hold.spec_holdings().len()
}

/// The region `hold` records for yard `id`.
pub open spec fn region_of(hold: BoundsHold, id: i32) -> Bounds {
    hold.spec_holdings()[hold.spec_map()[id] as int]
}

/// Cell (`row`, `col`) after a fill of `color` over `bounds`.
pub open spec fn fill_spot(color: FillColor, bounds: Bounds, row: int, col: int, s: SpotStack) -> SpotStack {
    if bounds.spec_intersects(row, col) {
        spec_with_fill(s, color, bounds.z)
    } else {
        s
    }
}

/// Cell (`row`, `col`) after a glyph yard drawn over `bounds`: its glyph in
/// every cell of the region, unless it is a control character.
pub open spec fn glyph_spot(glyph: GlyphYard, bounds: Bounds, row: int, col: int, s: SpotStack) -> SpotStack {
    if bounds.spec_intersects(row, col) && !spec_is_control(glyph.glyph) {
        spec_with_stroke(s, glyph.glyph, glyph.color, bounds.z)
    } else {
        s
    }
}

/// Cell (`row`, `col`) after `text` is written from column `left` of row
/// `top`, within `bounds`, in `color` at depth `z`.
pub open spec fn text_spot(
    text: Seq<char>,
    top: int,
    left: int,
    bounds: Bounds,
    color: StrokeColor,
    z: i32,
    row: int,
    col: int,
    s: SpotStack,
) -> SpotStack {
    let k = col - left;
    if bounds.spec_intersects(row, col) && row == top && 0 <= k < text.len() {
        spec_with_stroke(s, text[k], color, z)
    } else {
        s
    }
}

/// Cell (`row`, `col`) after a label drawn over `bounds`: its characters
/// from the left of the part of `bounds` it clings to.
pub open spec fn label_spot(label: LabelYard, bounds: Bounds, row: int, col: int, s: SpotStack) -> SpotStack {
    let t = label.spec_text_bounds(bounds);
    text_spot(label.string@, t.top as int, t.left as int, bounds, label.color, bounds.z, row, col, s)
}

pub(crate) fn fill_at(color: FillColor, bounds: &Bounds, row: i32, col: i32, s: SpotStack) -> (r: SpotStack)
    ensures
        r == fill_spot(color, *bounds, row as int, col as int, s),
{
    let mut out = s;
    if bounds.intersects(row, col) {
        out.set_fill(color, bounds.z);
    }
    out
}

pub(crate) fn glyph_at(glyph: &GlyphYard, bounds: &Bounds, row: i32, col: i32, s: SpotStack) -> (r: SpotStack)
    ensures
        r == glyph_spot(*glyph, *bounds, row as int, col as int, s),
{
    let mut out = s;
    if bounds.intersects(row, col) && !is_control(glyph.glyph) {
        out.set_stroke(glyph.glyph, glyph.color, bounds.z);
    }
    out
}

pub(crate) fn text_at(
    text: &Vec<char>,
    top: i32,
    left: i32,
    bounds: &Bounds,
    color: StrokeColor,
    z: i32,
    row: i32,
    col: i32,
    s: SpotStack,
) -> (r: SpotStack)
    ensures
        r == text_spot(text@, top as int, left as int, *bounds, color, z, row as int, col as int, s),
{
    let mut out = s;
    let k: i64 = col as i64 - left as i64;
    if bounds.intersects(row, col) && row == top && 0 <= k && (k as u64) < (text.len() as u64) {
        out.set_stroke(text[k as usize], color, z);
    }
    out
}

pub(crate) fn label_at(label: &LabelYard, bounds: &Bounds, row: i32, col: i32, s: SpotStack) -> (r: SpotStack)
    requires
        label.renders_in(*bounds),
    ensures
        r == label_spot(*label, *bounds, row as int, col as int, s),
{
    let t = label.render(bounds);
    text_at(&label.string, t.top, t.left, bounds, label.color, bounds.z, row, col, s)
}

/// `cells` holds `rows` rows of `cols` cells each.
pub open spec fn screen_shape(cells: Seq<Vec<SpotStack>>, cols: int, rows: int) -> bool {
    &&& cells.len() == rows
    &&& forall|r: int| 0 <= r < rows ==> (#[trigger] cells[r])@.len() == cols
}

/// Each of `items` paints within `hold`.
pub open spec fn items_paint_in<Y: Yard>(items: Seq<(i32, Y)>, hold: BoundsHold, focus_id: i32) -> bool {
    forall|k: int| 0 <= k < items.len() ==> (#[trigger] items[k]).1.paints_in(hold, focus_id)
}

/// Cell (`row`, `col`) after the first `k` of `items` paint into `s` in turn.
pub open spec fn items_painted<Y: Yard>(
    items: Seq<(i32, Y)>,
    k: int,
    hold: BoundsHold,
    focus_id: i32,
    row: int,
    col: int,
    s: SpotStack,
) -> SpotStack
    decreases k,
{
    if k <= 0 {
        s
    } else {
        items[k - 1].1.painted(hold, focus_id, row, col, items_painted(items, k - 1, hold, focus_id, row, col, s))
    }
}

/// Paints all of `items` into cell (`row`, `col`) in turn.
pub(crate) fn paint_items<Y: Yard>(
    items: &Vec<(i32, Y)>,
    hold: &BoundsHold,
    focus_id: i32,
    row: i32,
    col: i32,
    s: SpotStack,
) -> (r: SpotStack)
    requires
        items_paint_in(items@, *hold, focus_id),
    ensures
        r == items_painted(items@, items@.len() as int, *hold, focus_id, row as int, col as int, s),
{
    let mut out = s;
    let mut i: usize = 0;
    while i < items.len()
        invariant
            items_paint_in(items@, *hold, focus_id),
            i <= items@.len(),
            out == items_painted(items@, i as int, *hold, focus_id, row as int, col as int, s),
        decreases items@.len() - i,
    {
        out = items[i].1.paint_spot(hold, focus_id, row, col, out);
        i = i + 1;
    }
    out
}

/// Whether each of `items` paints within `hold`.
pub(crate) fn items_paint_ok<Y: Yard>(items: &Vec<(i32, Y)>, hold: &BoundsHold, focus_id: i32) -> (r: bool)
    ensures
        r == items_paint_in(items@, *hold, focus_id),
{
    let mut i: usize = 0;
    while i < items.len()
        invariant
            i <= items@.len(),
            forall|k: int| 0 <= k < i ==> (#[trigger] items@[k]).1.paints_in(*hold, focus_id),
        decreases items@.len() - i,
    {
        if !items[i].1.paints_ok(hold, focus_id) {
            proof {
                assert(!items@[i as int].1.paints_in(*hold, focus_id));
            }
            return false;
        }
        i = i + 1;
    }
    true
}

/// Each of `strands` paints within `hold`.
pub open spec fn strands_paint_in<Y: Yard>(strands: Seq<Y>, hold: BoundsHold, focus_id: i32) -> bool {
    forall|k: int| 0 <= k < strands.len() ==> (#[trigger] strands[k]).paints_in(hold, focus_id)
}

/// Cell (`row`, `col`) after the first `k` of `strands` paint into `s` in
/// turn.
pub open spec fn strands_painted<Y: Yard>(
    strands: Seq<Y>,
    k: int,
    hold: BoundsHold,
    focus_id: i32,
    row: int,
    col: int,
    s: SpotStack,
) -> SpotStack
    decreases k,
{
    if k <= 0 {
        s
    } else {
        strands[k - 1].painted(hold, focus_id, row, col, strands_painted(strands, k - 1, hold, focus_id, row, col, s))
    }
}

/// Paints all of `strands` into cell (`row`, `col`) in turn.
pub(crate) fn paint_strands<Y: Yard>(
    strands: &Vec<Y>,
    hold: &BoundsHold,
    focus_id: i32,
    row: i32,
    col: i32,
    s: SpotStack,
) -> (r: SpotStack)
    requires
        strands_paint_in(strands@, *hold, focus_id),
    ensures
        r == strands_painted(strands@, strands@.len() as int, *hold, focus_id, row as int, col as int, s),
{
    let mut out = s;
    let mut i: usize = 0;
    while i < strands.len()
        invariant
            strands_paint_in(strands@, *hold, focus_id),
            i <= strands@.len(),
            out == strands_painted(strands@, i as int, *hold, focus_id, row as int, col as int, s),
        decreases strands@.len() - i,
    {
        out = strands[i].paint_spot(hold, focus_id, row, col, out);
        i = i + 1;
    }
    out
}

/// Whether each of `strands` paints within `hold`.
pub(crate) fn strands_paint_ok<Y: Yard>(strands: &Vec<Y>, hold: &BoundsHold, focus_id: i32) -> (r: bool)
    ensures
        r == strands_paint_in(strands@, *hold, focus_id),
{
    let mut i: usize = 0;
    while i < strands.len()
        invariant
            i <= strands@.len(),
            forall|k: int| 0 <= k < i ==> (#[trigger] strands@[k]).paints_in(*hold, focus_id),
        decreases strands@.len() - i,
    {
        if !strands[i].paints_ok(hold, focus_id) {
            proof {
                assert(!strands@[i as int].paints_in(*hold, focus_id));
            }
            return false;
        }
        i = i + 1;
    }
    true
}

/// A screen of `rows` rows of `cols` cells showing `yard`, its regions
/// taken from `hold` and the focus on yard `focus_id`: each cell is what
/// the yard paints into an untouched cell.
pub fn paint<Y: Yard>(yard: &Y, hold: &BoundsHold, focus_id: i32, cols: i32, rows: i32) -> (r: Vec<Vec<SpotStack>>)
    requires
        yard.paints_in(*hold, focus_id),
        cols >= 0,
        rows >= 0,
    ensures
        screen_shape(r@, cols as int, rows as int),
        forall|i: int, j: int|
            0 <= i < rows && 0 <= j < cols ==> (#[trigger] r@[i]@[j]) == yard.painted(*hold, focus_id, i, j, blank()),
{
    let mut screen: Vec<Vec<SpotStack>> = Vec::new();
    let mut i: i32 = 0;
    while i < rows
        invariant
            yard.paints_in(*hold, focus_id),
            0 <= i <= rows,
            cols >= 0,
            screen_shape(screen@, cols as int, i as int),
            forall|a: int, b: int|
                0 <= a < i && 0 <= b < cols ==> (#[trigger] screen@[a]@[b]) == yard.painted(*hold, focus_id, a, b, blank()),
        decreases rows - i,
    {
        let mut line: Vec<SpotStack> = Vec::new();
        let mut j: i32 = 0;
        while j < cols
            invariant
                yard.paints_in(*hold, focus_id),
                0 <= j <= cols,
                line@.len() == j,
                forall|b: int| 0 <= b < j ==> (#[trigger] line@[b]) == yard.painted(*hold, focus_id, i as int, b, blank()),
            decreases cols - j,
        {
            line.push(yard.paint_spot(hold, focus_id, i, j, SpotStack::new()));
            j = j + 1;
        }
        screen.push(line);
        i = i + 1;
    }
    screen
}

/// Cell (`row`, `col`) after the body of a text field is drawn in
/// `bounds`, focused or not: the hint (the label in comment colour) when
/// `hint`, and otherwise the text around the cursor (`pre` ending just
/// left of the cursor's column `cursor_col`, `glyph` in it, `post` after
/// it), in the body's first row; a focused field's cursor cell is filled
/// with the background.
pub open spec fn body_spot(
    hint: bool,
    cursor_col: int,
    pre: Seq<char>,
    glyph: Option<char>,
    post: Seq<char>,
    label: Seq<char>,
    bounds: Bounds,
    focused: bool,
    row: int,
    col: int,
    s: SpotStack,
) -> SpotStack {
    if hint {
        text_spot(label, bounds.top as int, bounds.left as int, bounds, StrokeColor::Comment, bounds.z, row, col, s)
    } else {
        let at = bounds.left + cursor_col;
        let d = col - at;
        if !bounds.spec_intersects(row, col) || row != bounds.top {
            s
        } else if d < 0 {
            text_spot(pre, bounds.top as int, at - pre.len(), bounds, StrokeColor::Body, bounds.z, row, col, s)
        } else if d == 0 {
            let lit = if focused { spec_with_fill(s, FillColor::Background, bounds.z) } else { s };
            match glyph {
                Some(g) => spec_with_stroke(lit, g, StrokeColor::Body, bounds.z),
                None => lit,
            }
        } else {
            text_spot(post, bounds.top as int, at + 1, bounds, StrokeColor::Body, bounds.z, row, col, s)
        }
    }
}

/// The parts of a body view: whether it is the hint, and the cursor's
/// column with the text around it.
pub open spec fn body_parts(body: BodyView) -> (bool, int, Seq<char>, Option<char>, Seq<char>) {
    match body {
        BodyView::Hint => (true, 0, Seq::empty(), None, Seq::empty()),
        BodyView::Edit { cursor_col, pre, cursor_glyph, post } => (false, cursor_col as int, pre@, cursor_glyph, post@),
    }
}

/// Cell (`row`, `col`) after a text field paints into `s`, focused or not,
/// with `label` as its label: the label in the head row when `head_color`
/// colours it, the underline of `_` across the foot row in `foot_color`,
/// and the body (see [`body_spot`]; `body` gives its parts).
pub open spec fn field_cell(
    head: Bounds,
    head_color: Option<StrokeColor>,
    foot: Bounds,
    foot_color: StrokeColor,
    body_bounds: Bounds,
    body: (bool, int, Seq<char>, Option<char>, Seq<char>),
    label: Seq<char>,
    focused: bool,
    row: int,
    col: int,
    s: SpotStack,
) -> SpotStack {
    let headed = match head_color {
        Some(color) => text_spot(label, head.top as int, head.left as int, head, color, head.z, row, col, s),
        None => s,
    };
    let footed = if foot.spec_intersects(row, col) {
        spec_with_stroke(headed, '_', foot_color, foot.z)
    } else {
        headed
    };
    body_spot(body.0, body.1, body.2, body.3, body.4, label, body_bounds, focused, row, col, footed)
}

/// Cell (`row`, `col`) after a text field drawn as `view` paints into `s`
/// (see [`field_cell`]).
pub open spec fn field_spot(view: TextfieldView, label: Seq<char>, focused: bool, row: int, col: int, s: SpotStack) -> SpotStack {
    field_cell(
        view.head_bounds,
        view.head_color,
        view.foot_bounds,
        view.foot_color,
        view.body_bounds,
        body_parts(view.body),
        label,
        focused,
        row,
        col,
        s,
    )
}

impl TextfieldView {
    /// Cell (`row`, `col`) of a screen showing this view (see
    /// [`field_spot`]).
    pub fn paint_spot(&self, label: &Vec<char>, focused: bool, row: i32, col: i32, s: SpotStack) -> (r: SpotStack)
        ensures
            r == field_spot(*self, label@, focused, row as int, col as int, s),
    {
        let h = &self.head_bounds;
        let headed = match self.head_color {
            Some(color) => text_at(label, h.top, h.left, h, color, h.z, row, col, s),
            None => s,
        };
        let mut footed = headed;
        if self.foot_bounds.intersects(row, col) {
            footed.set_stroke('_', self.foot_color, self.foot_bounds.z);
        }
        let b = &self.body_bounds;
        match &self.body {
            BodyView::Hint => text_at(label, b.top, b.left, b, StrokeColor::Comment, b.z, row, col, footed),
            BodyView::Edit { cursor_col, pre, cursor_glyph, post } => {
                let at: i64 = b.left as i64 + *cursor_col as i64;
                let d: i64 = col as i64 - at;
                if !b.intersects(row, col) || row != b.top {
                    footed
                } else if d < 0 {
                    let back: i64 = -d;
                    let mut out = footed;
                    if (back as u64) <= (pre.len() as u64) {
                        out.set_stroke(pre[pre.len() - back as usize], StrokeColor::Body, b.z);
                    }
                    out
                } else if d == 0 {
                    let mut out = footed;
                    if focused {
                        out.set_fill(FillColor::Background, b.z);
                    }
                    match cursor_glyph {
                        Some(g) => out.set_stroke(*g, StrokeColor::Body, b.z),
                        None => {},
                    }
                    out
                } else {
                    let k: i64 = d - 1;
                    let mut out = footed;
                    if (k as u64) < (post.len() as u64) {
                        out.set_stroke(post[k as usize], StrokeColor::Body, b.z);
                    }
                    out
                }
            },
        }
    }
}

impl TextfieldView {
    /// A screen of `rows` rows of `cols` cells showing this view of a text
    /// field labelled `label`, focused or not.
    pub fn paint(&self, label: &Vec<char>, focused: bool, cols: i32, rows: i32) -> (r: Vec<Vec<SpotStack>>)
        requires
            cols >= 0,
            rows >= 0,
        ensures
            screen_shape(r@, cols as int, rows as int),
            forall|i: int, j: int|
                0 <= i < rows && 0 <= j < cols ==> (#[trigger] r@[i]@[j]) == field_spot(*self, label@, focused, i, j, blank()),
    {
        let mut screen: Vec<Vec<SpotStack>> = Vec::new();
        let mut i: i32 = 0;
        while i < rows
            invariant
                0 <= i <= rows,
                cols >= 0,
                screen_shape(screen@, cols as int, i as int),
                forall|a: int, b: int|
                    0 <= a < i && 0 <= b < cols ==> (#[trigger] screen@[a]@[b]) == field_spot(*self, label@, focused, a, b, blank()),
            decreases rows - i,
        {
            let mut line: Vec<SpotStack> = Vec::new();
            let mut j: i32 = 0;
            while j < cols
                invariant
                    0 <= j <= cols,
                    line@.len() == j,
                    forall|b: int| 0 <= b < j ==> (#[trigger] line@[b]) == field_spot(*self, label@, focused, i as int, b, blank()),
                decreases cols - j,
            {
                line.push(self.paint_spot(label, focused, i, j, SpotStack::new()));
                j = j + 1;
            }
            screen.push(line);
            i = i + 1;
        }
        screen
    }
}

} // verus!
