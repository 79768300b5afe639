//! The yards of the toolkit and how each lays itself out: plain yards that
//! fill their edge region, and combinators that divide, pad, place, confine,
//! fade or stack the regions of the yards they hold.

use crate::bounds::{exact_extra, fits_i32, scale_by_halves, scale_halves, Bounds, Cling};
use crate::textfield::{is_control, spec_is_control};
use crate::layout::{occupied_edge, entered, left_to, same_state, pushed, pushed_one, laid_at, multi_laid, ended_at_depth, lemma_take_all, lemma_grew_transitive, LayoutContext, MultiLayout, Yard};
use crate::link::random_id;
use crate::bounds::BoundsHold;
use crate::paint::{
    fill_at, fill_spot, glyph_at, glyph_spot, has_region, items_paint_in, items_paint_ok, items_painted, label_at, label_spot,
    paint_items, paint_strands, region_of, strands_paint_in, strands_paint_ok, strands_painted,
};
use crate::screen::SpotStack;
use crate::palette::{FillColor, FillGrade, StrokeColor};
use vstd::prelude::*;

verus! {

/// Two regions cover the same cells (their depths may differ).
pub open spec fn same_extent(a: Bounds, b: Bounds) -> bool {
    a.left == b.left && a.right == b.right && a.top == b.top && a.bottom == b.bottom
}

/// A yard that draws nothing and occupies its edge region.
#[derive(Copy, Clone, Debug)]
pub struct EmptyYard {
    pub id: i32,
}

pub fn empty_yard() -> (y: EmptyYard) {
    EmptyYard { id: random_id() }
}

impl Yard for EmptyYard {
    open spec fn paints_in(&self, hold: BoundsHold, focus_id: i32) -> bool {
        true
    }

    fn paints_ok(&self, hold: &BoundsHold, focus_id: i32) -> (r: bool) {
        true
    }

    /// An empty yard draws nothing.
    open spec fn painted(&self, hold: BoundsHold, focus_id: i32, row: int, col: int, s: SpotStack) -> SpotStack {
        s
    }

    fn paint_spot(&self, hold: &BoundsHold, focus_id: i32, row: i32, col: i32, s: SpotStack) -> (r: SpotStack) {
        s
    }

    open spec fn laid_out(&self, before: LayoutContext, after: LayoutContext, r: usize) -> bool {
        occupied_edge(before, after, r, None)
    }

    fn id(&self) -> (r: i32)
        ensures
            r == self.id,
    {
        self.id
    }

    fn layout(&self, ctx: &mut LayoutContext) -> (r: usize)
        ensures
            r == old(ctx).spec_index(),
            final(ctx).spec_holdings() == old(ctx).spec_holdings(),
            final(ctx).spec_yard_map() == old(ctx).spec_yard_map(),
            final(ctx).kept_foci(*old(ctx)),
    {
        let (bounds_id, _bounds) = ctx.edge_bounds();
        proof {
            lemma_take_all(ctx.spec_holdings());
        }
        bounds_id
    }
}

/// A yard that fills its edge region with a colour.
#[derive(Copy, Clone, Debug)]
pub struct FillYard {
    pub id: i32,
    pub color: FillColor,
}

/// A change that a yard takes between layouts.
#[derive(Copy, Clone, Debug, PartialEq, Eq, Structural)]
pub enum YardOption {
    FillColor(FillColor),
}

impl FillYard {
    /// Takes `option`: a fill colour replaces the yard's colour.
    pub fn update(&mut self, option: YardOption)
        ensures
            final(self).id == old(self).id,
            final(self).color == match option {
                YardOption::FillColor(c) => c,
            },
    {
        match option {
            YardOption::FillColor(c) => {
                self.color = c;
            },
        }
    }
}

pub fn fill_yard(color: FillColor) -> (y: FillYard)
    ensures
        y.color == color,
{
    FillYard { id: random_id(), color }
}

/// Lays a plain yard out: it occupies its edge region, which is recorded as
/// the yard's region.
fn layout_in_edge(id: i32, ctx: &mut LayoutContext) -> (r: usize)
    requires
        old(ctx).wf(),
    ensures
        final(ctx).wf(),
        final(ctx).grew_from(*old(ctx)),
        r == old(ctx).spec_index(),
        final(ctx).spec_holdings() == old(ctx).spec_holdings(),
        final(ctx).spec_yard_map() == old(ctx).spec_yard_map().insert(id, r),
        final(ctx).kept_foci(*old(ctx)),
{
    let (bounds_id, _bounds) = ctx.edge_bounds();
    ctx.set_yard_bounds(id, bounds_id);
    proof {
        lemma_take_all(ctx.spec_holdings());
    }
    bounds_id
}

impl Yard for FillYard {
    open spec fn paints_in(&self, hold: BoundsHold, focus_id: i32) -> bool {
        has_region(hold, self.id)
    }

    fn paints_ok(&self, hold: &BoundsHold, focus_id: i32) -> (r: bool) {
        hold.has_region_for(self.id)
    }

    /// The fill colour over the yard's region.
    open spec fn painted(&self, hold: BoundsHold, focus_id: i32, row: int, col: int, s: SpotStack) -> SpotStack {
        fill_spot(self.color, region_of(hold, self.id), row, col, s)
    }

    fn paint_spot(&self, hold: &BoundsHold, focus_id: i32, row: i32, col: i32, s: SpotStack) -> (r: SpotStack) {
        fill_at(self.color, hold.yard_bounds(self.id), row, col, s)
    }

    open spec fn laid_out(&self, before: LayoutContext, after: LayoutContext, r: usize) -> bool {
        occupied_edge(before, after, r, Some(self.id))
    }

    fn id(&self) -> (r: i32)
        ensures
            r == self.id,
    {
        self.id
    }

    fn layout(&self, ctx: &mut LayoutContext) -> (r: usize)
        ensures
            r == old(ctx).spec_index(),
            final(ctx).spec_holdings() == old(ctx).spec_holdings(),
            final(ctx).spec_yard_map() == old(ctx).spec_yard_map().insert(self.id, r),
            final(ctx).kept_foci(*old(ctx)),
    {
        layout_in_edge(self.id, ctx)
    }
}

/// A yard that draws one character across its edge region (`\0` draws
/// nothing).
#[derive(Copy, Clone, Debug)]
pub struct GlyphYard {
    pub id: i32,
    pub glyph: char,
    pub color: StrokeColor,
}

pub fn glyph_yard(glyph: char, color: StrokeColor) -> (y: GlyphYard)
    ensures
        y.glyph == glyph,
        y.color == color,
{
    GlyphYard { id: random_id(), glyph, color }
}

impl GlyphYard {
    /// How many times the glyph is drawn across `bounds`: once per column,
    /// and not at all for a control character or a region without columns.
    pub fn render(&self, bounds: &Bounds) -> (r: Option<i32>)
        requires
            fits_i32(bounds.spec_width()),
        ensures
            r == (if !spec_is_control(self.glyph) && bounds.spec_width() > 0 {
                Some(bounds.spec_width() as i32)
            } else {
                None
            }),
    {
        if !is_control(self.glyph) {
            let width = bounds.width();
            if width > 0 {
                return Some(width);
            }
        }
        None
    }
}

impl Yard for GlyphYard {
    open spec fn paints_in(&self, hold: BoundsHold, focus_id: i32) -> bool {
        has_region(hold, self.id)
    }

    fn paints_ok(&self, hold: &BoundsHold, focus_id: i32) -> (r: bool) {
        hold.has_region_for(self.id)
    }

    /// The glyph in every cell of the yard's region.
    open spec fn painted(&self, hold: BoundsHold, focus_id: i32, row: int, col: int, s: SpotStack) -> SpotStack {
        glyph_spot(*self, region_of(hold, self.id), row, col, s)
    }

    fn paint_spot(&self, hold: &BoundsHold, focus_id: i32, row: i32, col: i32, s: SpotStack) -> (r: SpotStack) {
        glyph_at(self, hold.yard_bounds(self.id), row, col, s)
    }

    open spec fn laid_out(&self, before: LayoutContext, after: LayoutContext, r: usize) -> bool {
        occupied_edge(before, after, r, Some(self.id))
    }

    fn id(&self) -> (r: i32)
        ensures
            r == self.id,
    {
        self.id
    }

    fn layout(&self, ctx: &mut LayoutContext) -> (r: usize)
        ensures
            r == old(ctx).spec_index(),
            final(ctx).spec_holdings() == old(ctx).spec_holdings(),
            final(ctx).spec_yard_map() == old(ctx).spec_yard_map().insert(self.id, r),
            final(ctx).kept_foci(*old(ctx)),
    {
        layout_in_edge(self.id, ctx)
    }
}

/// The columns a text takes on a terminal, as unicode-width measures it.
pub uninterp spec fn display_width(text: Seq<char>) -> usize;

/// Calls `UnicodeWidthStr::width` of the unicode-width crate on the text of
/// `chars`: the number of terminal columns the text takes by Unicode's East
/// Asian Width tables (ambiguous characters one column wide). It depends on
/// the text alone, so it is named rather than spelled out.
#[verifier::external_body]
fn text_width(chars: &Vec<char>) -> (r: usize)
    ensures
        r == display_width(chars@),
{
    let text: String = chars.iter().collect();
    unicode_width::UnicodeWidthStr::width(text.as_str())
}

/// The characters of a text that a label draws: control characters are
/// dropped.
pub open spec fn printable(text: Seq<char>) -> Seq<char> {
    text.filter(|c: char| !spec_is_control(c))
}

/// A yard that draws a line of text, clinging within its edge region.
#[derive(Debug)]
pub struct LabelYard {
    pub id: i32,
    pub color: StrokeColor,
    pub string: Vec<char>,
    pub string_width: usize,
    pub cling: Cling,
}

/// A label of `string` without its control characters, measured in
/// terminal columns, with a fresh random id.
pub fn label_yard(string: &str, color: StrokeColor, cling: Cling) -> (y: LabelYard)
    ensures
        y.string@ == printable(string@),
        y.string_width == display_width(printable(string@)),
        y.color == color,
        y.cling == cling,
{
    let id = random_id();
    let n = string.unicode_len();
    let mut chars: Vec<char> = Vec::new();
    let mut i: usize = 0;
    while i < n
        invariant
            n == string@.len(),
            i <= n,
            chars@ == printable(string@.subrange(0, i as int)),
        decreases n - i,
    {
        let c = string.get_char(i);
        proof {
            let prefix = string@.subrange(0, i as int);
            assert(string@.subrange(0, i + 1) == prefix.push(c));
            reveal_with_fuel(Seq::filter, 1);
            assert(prefix.push(c).drop_last() == prefix);
        }
        if !is_control(c) {
            chars.push(c);
        }
        i = i + 1;
    }
    proof {
        assert(string@.subrange(0, n as int) == string@);
    }
    let string_width = text_width(&chars);
    LabelYard { id, color, string: chars, string_width, cling }
}

impl LabelYard {
    /// `render` neither panics nor overflows in `bounds`, and the spare
    /// space stays within what the cling fraction scales exactly.
    pub open spec fn renders_in(&self, bounds: Bounds) -> bool {
        let extra_width = bounds.spec_width() - self.string_width;
        let extra_height = bounds.spec_height() - 1;
        let extra_left = scale_halves(extra_width, self.cling.spec_x_halves());
        let extra_top = scale_halves(extra_height, self.cling.spec_y_halves());
        &&& self.string_width <= i32::MAX
        &&& fits_i32(bounds.spec_width())
        &&& fits_i32(bounds.spec_height())
        &&& -exact_extra() <= extra_width <= exact_extra()
        &&& -exact_extra() <= extra_height <= exact_extra()
        &&& fits_i32(bounds.left + extra_left)
        &&& fits_i32(bounds.top + extra_top)
        &&& fits_i32(bounds.bottom - (extra_height - extra_top))
    }

    /// Whether the label can be drawn in `bounds` (see `renders_in`).
    pub fn renders_ok(&self, bounds: &Bounds) -> (r: bool)
        ensures
            r == self.renders_in(*bounds),
    {
        let lo: i64 = i32::MIN as i64;
        let hi: i64 = i32::MAX as i64;
        if self.string_width > 0x7fff_ffff {
            return false;
        }
        let width: i64 = bounds.right as i64 - bounds.left as i64;
        let height: i64 = bounds.bottom as i64 - bounds.top as i64;
        if width < lo || width > hi || height < lo || height > hi {
            return false;
        }
        let extra_width: i64 = width - self.string_width as i64;
        let extra_height: i64 = height - 1;
        let exact: i64 = 0x100_0000;
        if extra_width < -exact || extra_width > exact || extra_height < -exact || extra_height > exact {
            return false;
        }
        let extra_left = scale_by_halves(extra_width as i32, self.cling.x_halves());
        let extra_top = scale_by_halves(extra_height as i32, self.cling.y_halves());
        let left: i64 = bounds.left as i64 + extra_left as i64;
        let top: i64 = bounds.top as i64 + extra_top as i64;
        let bottom: i64 = bounds.bottom as i64 - (extra_height - extra_top as i64);
        lo <= left && left <= hi && lo <= top && top <= hi && lo <= bottom && bottom <= hi
    }

    /// The row the text is drawn from: the spare columns and rows are split
    /// by the cling's position, the share before the text rounded toward
    /// zero, and the text takes one row.
    pub open spec fn spec_text_bounds(&self, bounds: Bounds) -> Bounds {
        let extra_width = bounds.spec_width() - self.string_width;
        let extra_height = bounds.spec_height() - 1;
        let extra_left = scale_halves(extra_width, self.cling.spec_x_halves());
        let extra_top = scale_halves(extra_height, self.cling.spec_y_halves());
        Bounds {
            left: (bounds.left + extra_left) as i32,
            top: (bounds.top + extra_top) as i32,
            bottom: (bounds.bottom - (extra_height - extra_top)) as i32,
            ..bounds
        }
    }

    /// Where the label draws its text within `bounds`.
    pub fn render(&self, bounds: &Bounds) -> (r: Bounds)
        requires
            self.renders_in(*bounds),
        ensures
            r == self.spec_text_bounds(*bounds),
    {
        let extra_width = bounds.width() - self.string_width as i32;
        let extra_height = bounds.height() - 1;
        let extra_left = scale_by_halves(extra_width, self.cling.x_halves());
        let extra_top = scale_by_halves(extra_height, self.cling.y_halves());
        let extra_bottom = bounds.height() - extra_top - 1;
        bounds.pad(extra_left, 0, extra_top, extra_bottom)
    }
}

/// A label's text clings where its cling's name says: `Left`-named clings
/// start it at the region's left edge, `Right`-named ones end it at the
/// right edge, the others centre it (the spare columns split within one);
/// `Top`-named clings put it on the top row, `Bottom`-named ones on the
/// bottom row, the others on the middle row.
pub proof fn lemma_label_clings(label: LabelYard, bounds: Bounds)
    requires
        label.renders_in(bounds),
    ensures
        ({
            let t = label.spec_text_bounds(bounds);
            let spare_left = t.left - bounds.left;
            let spare_right = bounds.right - (t.left + label.string_width);
            let spare_top = t.top - bounds.top;
            let spare_bottom = bounds.bottom - t.bottom;
            &&& t.bottom == t.top + 1
            &&& match label.cling {
                Cling::Left | Cling::LeftTop | Cling::LeftBottom => spare_left == 0,
                Cling::Right | Cling::RightTop | Cling::RightBottom => spare_right == 0,
                _ => -1 <= spare_right - spare_left <= 1,
            }
            &&& match label.cling {
                Cling::Top | Cling::LeftTop | Cling::RightTop => spare_top == 0,
                Cling::Bottom | Cling::LeftBottom | Cling::RightBottom => spare_bottom == 0,
                _ => -1 <= spare_bottom - spare_top <= 1,
            }
        }),
{
}

/// A label no wider than its region draws its text on one row inside the
/// region.
pub proof fn lemma_label_text_within(label: LabelYard, bounds: Bounds)
    requires
        label.renders_in(bounds),
        label.string_width <= bounds.spec_width(),
        bounds.spec_height() >= 1,
    ensures
        ({
            let t = label.spec_text_bounds(bounds);
            &&& bounds.left <= t.left <= t.left + label.string_width <= t.right == bounds.right
            &&& bounds.top <= t.top
            &&& t.bottom == t.top + 1 <= bounds.bottom
        }),
{
    let extra_width = bounds.spec_width() - label.string_width;
    let extra_height = bounds.spec_height() - 1;
    let xh = label.cling.spec_x_halves();
    let yh = label.cling.spec_y_halves();
    assert(0 <= extra_width * xh <= extra_width * 2) by (nonlinear_arith)
        requires extra_width >= 0, 0 <= xh <= 2;
    assert(0 <= extra_height * yh <= extra_height * 2) by (nonlinear_arith)
        requires extra_height >= 0, 0 <= yh <= 2;
}

impl Yard for LabelYard {
    open spec fn paints_in(&self, hold: BoundsHold, focus_id: i32) -> bool {
        has_region(hold, self.id) && self.renders_in(region_of(hold, self.id))
    }

    fn paints_ok(&self, hold: &BoundsHold, focus_id: i32) -> (r: bool) {
        hold.has_region_for(self.id) && self.renders_ok(hold.yard_bounds(self.id))
    }

    /// The text where it clings in the yard's region.
    open spec fn painted(&self, hold: BoundsHold, focus_id: i32, row: int, col: int, s: SpotStack) -> SpotStack {
        label_spot(*self, region_of(hold, self.id), row, col, s)
    }

    fn paint_spot(&self, hold: &BoundsHold, focus_id: i32, row: i32, col: i32, s: SpotStack) -> (r: SpotStack) {
        label_at(self, hold.yard_bounds(self.id), row, col, s)
    }

    open spec fn laid_out(&self, before: LayoutContext, after: LayoutContext, r: usize) -> bool {
        occupied_edge(before, after, r, Some(self.id))
    }

    fn id(&self) -> (r: i32)
        ensures
            r == self.id,
    {
        self.id
    }

    fn layout(&self, ctx: &mut LayoutContext) -> (r: usize)
        ensures
            r == old(ctx).spec_index(),
            final(ctx).spec_holdings() == old(ctx).spec_holdings(),
            final(ctx).spec_yard_map() == old(ctx).spec_yard_map().insert(self.id, r),
            final(ctx).kept_foci(*old(ctx)),
    {
        layout_in_edge(self.id, ctx)
    }
}

/// Finishes a combinator's layout: its edge region when its core ended at
/// the edge's depth, otherwise a new region of the edge's extent at the
/// core's depth.
fn region_at_depth(ctx: &mut LayoutContext, edge_index: usize, edge_bounds: &Bounds, z: i32) -> (r: usize)
    requires
        old(ctx).wf(),
        edge_index < old(ctx).spec_holdings().len(),
        old(ctx).spec_holdings()[edge_index as int] == *edge_bounds,
    ensures
        final(ctx).wf(),
        final(ctx).grew_from(*old(ctx)),
        r < final(ctx).spec_holdings().len(),
        final(ctx).spec_holdings()[r as int] == (Bounds { z, ..*edge_bounds }),
        edge_bounds.z == z ==> r == edge_index && same_state(*old(ctx), *final(ctx)),
        edge_bounds.z != z ==> r == old(ctx).spec_holdings().len() && pushed(
            *old(ctx),
            *final(ctx),
            seq![Bounds { z, ..*edge_bounds }],
        ),
{
    if edge_bounds.z == z {
        proof {
            lemma_take_all(ctx.spec_holdings());
        }
        edge_index
    } else {
        let r = ctx.push_bounds(&edge_bounds.with_z(z));
        proof {
            assert(ctx.spec_holdings() =~= old(ctx).spec_holdings() + seq![Bounds { z, ..*edge_bounds }]);
        }
        r
    }
}

/// The nearer of two depths.
pub open spec fn nearer(a: i32, b: i32) -> i32 {
    if a <= b {
        a
    } else {
        b
    }
}

/// Two yards laid out in two parts of the edge region: the parts are pushed
/// as the next two regions, `a` is laid out in the first and then `b` in the
/// second, and the whole ends at the nearer of the depths they reached.
pub open spec fn parts_laid<A: Yard, B: Yard>(
    a: &A,
    b: &B,
    first: Bounds,
    second: Bounds,
    before: LayoutContext,
    after: LayoutContext,
    r: usize,
) -> bool {
    exists|c1: LayoutContext, c2: LayoutContext, c3: LayoutContext, j1: usize, j2: usize, i1: usize, i2: usize|
        #![trigger laid_at(a, c1, j1, false, c2, i1, None), laid_at(b, c2, j2, false, c3, i2, None)]
        {
            &&& j1 == before.spec_holdings().len()
            &&& j2 == j1 + 1
            &&& pushed(before, c1, seq![first, second])
            &&& laid_at(a, c1, j1, false, c2, i1, None)
            &&& laid_at(b, c2, j2, false, c3, i2, None)
            &&& ended_at_depth(
                before,
                c3,
                after,
                r,
                nearer(c3.spec_holdings()[i1 as int].z, c3.spec_holdings()[i2 as int].z),
            )
        }
}

/// How a pack divides its edge region between its two yards.
#[derive(Copy, Clone, Debug, PartialEq, Eq, Structural)]
pub enum Split {
    /// The first yard takes this many rows at the top.
    Top(i32),
    /// The second yard takes this many rows at the bottom.
    Bottom(i32),
    /// The second yard takes this many columns at the right.
    Right(i32),
    /// The first yard takes this many columns at the left.
    Left(i32),
}

impl Split {
    pub open spec fn spec_divide(self, b: Bounds) -> (Bounds, Bounds) {
        match self {
            Split::Top(rows) => {
                let m = if b.top + rows <= b.bottom { (b.top + rows) as i32 } else { b.bottom };
                (Bounds { bottom: m, ..b }, Bounds { top: m, ..b })
            },
            Split::Bottom(rows) => {
                let m = if b.bottom - rows >= b.top { (b.bottom - rows) as i32 } else { b.top };
                (Bounds { bottom: m, ..b }, Bounds { top: m, ..b })
            },
            Split::Right(cols) => {
                let c = if b.right - cols >= b.left { (b.right - cols) as i32 } else { b.left };
                (Bounds { right: c, ..b }, Bounds { left: c, ..b })
            },
            Split::Left(cols) => {
                let c = if b.left + cols <= b.right { (b.left + cols) as i32 } else { b.right };
                (Bounds { right: c, ..b }, Bounds { left: c, ..b })
            },
        }
    }

    pub open spec fn divide_ok(self, b: Bounds) -> bool {
        match self {
            Split::Top(rows) => fits_i32(b.top + rows),
            Split::Bottom(rows) => fits_i32(b.bottom - rows),
            Split::Right(cols) => fits_i32(b.right - cols),
            Split::Left(cols) => fits_i32(b.left + cols),
        }
    }

    /// The two parts of a division by a non-negative amount tile the region:
    /// they meet along one line inside it and share its other edges and its
    /// depth.
    pub proof fn lemma_divide_tiles(self, b: Bounds)
        requires
            self.divide_ok(b),
            match self {
                Split::Top(n) => n >= 0,
                Split::Bottom(n) => n >= 0,
                Split::Right(n) => n >= 0,
                Split::Left(n) => n >= 0,
            },
            b.left <= b.right,
            b.top <= b.bottom,
        ensures
            ({
                let (first, second) = self.spec_divide(b);
                match self {
                    Split::Right(_) | Split::Left(_) => {
                        &&& first.right == second.left
                        &&& b.left <= first.right <= b.right
                        &&& first == Bounds { right: first.right, ..b }
                        &&& second == Bounds { left: second.left, ..b }
                    },
                    _ => {
                        &&& first.bottom == second.top
                        &&& b.top <= first.bottom <= b.bottom
                        &&& first == Bounds { bottom: first.bottom, ..b }
                        &&& second == Bounds { top: second.top, ..b }
                    },
                }
            }),
    {
    }

    /// Whether the division of `b` stays within `i32`.
    pub fn divides(&self, b: &Bounds) -> (r: bool)
        ensures
            r == self.divide_ok(*b),
    {
        match self {
            Split::Top(rows) => {
                let v: i64 = b.top as i64 + *rows as i64;
                i32::MIN as i64 <= v && v <= i32::MAX as i64
            },
            Split::Bottom(rows) => {
                let v: i64 = b.bottom as i64 - *rows as i64;
                i32::MIN as i64 <= v && v <= i32::MAX as i64
            },
            Split::Right(cols) => {
                let v: i64 = b.right as i64 - *cols as i64;
                i32::MIN as i64 <= v && v <= i32::MAX as i64
            },
            Split::Left(cols) => {
                let v: i64 = b.left as i64 + *cols as i64;
                i32::MIN as i64 <= v && v <= i32::MAX as i64
            },
        }
    }

    pub fn divide(&self, b: &Bounds) -> (r: (Bounds, Bounds))
        requires
            self.divide_ok(*b),
        ensures
            r == self.spec_divide(*b),
    {
        match self {
            Split::Top(rows) => b.split_from_top(*rows),
            Split::Bottom(rows) => b.split_from_bottom(*rows),
            Split::Right(cols) => b.split_from_right(*cols),
            Split::Left(cols) => {
                let cut = b.left + *cols;
                let center = if cut <= b.right { cut } else { b.right };
                (Bounds { right: center, ..*b }, Bounds { left: center, ..*b })
            },
        }
    }
}

/// Two yards side by side or one above the other.
#[derive(Debug)]
pub struct PackYard<A, B> {
    pub id: i32,
    pub first_yard: A,
    pub second_yard: B,
    pub divide: Split,
}

impl<A: Yard, B: Yard> Yard for PackYard<A, B> {
    open spec fn paints_in(&self, hold: BoundsHold, focus_id: i32) -> bool {
        self.first_yard.paints_in(hold, focus_id) && self.second_yard.paints_in(hold, focus_id)
    }

    fn paints_ok(&self, hold: &BoundsHold, focus_id: i32) -> (r: bool) {
        self.first_yard.paints_ok(hold, focus_id) && self.second_yard.paints_ok(hold, focus_id)
    }

    /// The first yard, then the second.
    open spec fn painted(&self, hold: BoundsHold, focus_id: i32, row: int, col: int, s: SpotStack) -> SpotStack {
        self.second_yard.painted(hold, focus_id, row, col, self.first_yard.painted(hold, focus_id, row, col, s))
    }

    fn paint_spot(&self, hold: &BoundsHold, focus_id: i32, row: i32, col: i32, s: SpotStack) -> (r: SpotStack) {
        let first = self.first_yard.paint_spot(hold, focus_id, row, col, s);
        self.second_yard.paint_spot(hold, focus_id, row, col, first)
    }

    /// The two yards laid out in the two parts of the edge region; an edge
    /// that cannot be divided is left as it is.
    open spec fn laid_out(&self, before: LayoutContext, after: LayoutContext, r: usize) -> bool {
        let e = before.spec_edge();
        if self.divide.divide_ok(e) {
            parts_laid(
                &self.first_yard,
                &self.second_yard,
                self.divide.spec_divide(e).0,
                self.divide.spec_divide(e).1,
                before,
                after,
                r,
            )
        } else {
            r == before.spec_index() && same_state(before, after)
        }
    }

    fn id(&self) -> (r: i32)
        ensures
            r == self.id,
    {
        self.id
    }

    /// Each yard is laid out in its part of the edge region, the two parts
    /// being the next two regions pushed; the pack ends in a region of the
    /// edge's extent at the nearer of their depths. An edge whose division
    /// would overflow `i32` is left to neither yard.
    fn layout(&self, ctx: &mut LayoutContext) -> (r: usize)
        ensures
            same_extent(final(ctx).spec_holdings()[r as int], old(ctx).spec_edge()),
            self.divide.divide_ok(old(ctx).spec_edge()) ==> {
                let n = old(ctx).spec_holdings().len() as int;
                &&& final(ctx).spec_holdings().len() >= n + 2
                &&& final(ctx).spec_holdings()[n] == self.divide.spec_divide(old(ctx).spec_edge()).0
                &&& final(ctx).spec_holdings()[n + 1] == self.divide.spec_divide(old(ctx).spec_edge()).1
            },
    {
        let (edge_index, edge_bounds) = ctx.edge_bounds();
        if !self.divide.divides(&edge_bounds) {
            proof {
                lemma_take_all(ctx.spec_holdings());
            }
            return edge_index;
        }
        let (first, second) = self.divide.divide(&edge_bounds);
        let ghost c0 = *ctx;
        let first_index = ctx.push_bounds(&first);
        let ghost ca = *ctx;
        let second_index = ctx.push_bounds(&second);
        let ghost c1 = *ctx;
        proof {
            lemma_grew_transitive(c0, ca, c1);
        }
        let (first_layout_index, _) = ctx.layout_at(&self.first_yard, first_index, false);
        let ghost c2 = *ctx;
        let (second_layout_index, _) = ctx.layout_at(&self.second_yard, second_index, false);
        let ghost c3 = *ctx;
        proof {
            lemma_grew_transitive(c1, c2, c3);
            lemma_grew_transitive(c0, c1, c3);
            assert(c3.spec_holdings().take(c2.spec_holdings().len() as int)[first_layout_index as int]
                == c2.spec_holdings()[first_layout_index as int]);
            assert(c3.spec_holdings().take(c0.spec_holdings().len() as int)[edge_index as int]
                == c0.spec_holdings()[edge_index as int]);
        }
        let first_z = ctx.bounds(first_layout_index).z;
        let second_z = ctx.bounds(second_layout_index).z;
        let min_z = if first_z <= second_z { first_z } else { second_z };
        let r = region_at_depth(ctx, edge_index, &edge_bounds, min_z);
        proof {
            lemma_grew_transitive(c0, c3, *ctx);
            let n = c0.spec_holdings().len() as int;
            assert(ctx.spec_holdings().take(c1.spec_holdings().len() as int)[n] == c1.spec_holdings()[n]);
            assert(ctx.spec_holdings().take(c1.spec_holdings().len() as int)[n + 1] == c1.spec_holdings()[n + 1]);
            assert(c1.spec_holdings() =~= c0.spec_holdings() + seq![first, second]);
            assert(pushed(c0, c1, seq![first, second]));
            assert(laid_at(&self.first_yard, c1, first_index, false, c2, first_layout_index, None));
            assert(laid_at(&self.second_yard, c2, second_index, false, c3, second_layout_index, None));
            assert(ended_at_depth(c0, c3, *ctx, r, nearer(first_z, second_z)));
        }
        r
    }
}

/// `inner` is `outer` with the regions `added` pushed and region `index`
/// made the edge.
pub open spec fn pushed_into(outer: LayoutContext, inner: LayoutContext, added: Seq<Bounds>, index: usize) -> bool {
    &&& inner.spec_holdings() == outer.spec_holdings() + added
    &&& inner.spec_yard_map() == outer.spec_yard_map()
    &&& inner.spec_index() == index
    &&& inner.spec_foci() == outer.spec_foci()
    &&& inner.spec_trapping() == outer.spec_trapping()
    &&& inner.spec_trapped() == outer.spec_trapped()
    &&& inner.spec_focus_max() == outer.spec_focus_max()
}

/// One way the split of a row's first `k` yards can go, but for the
/// first `k - 1` themselves: the edge's two parts pushed with the left one
/// made the edge (`cm`); after the first `k - 1` are laid out (leaving `cn`,
/// ending at `i1`), the edge is restored (`c2`), the `k`-th yard is laid out
/// in the right part ending at `i2`, and the whole ends at the nearer of
/// the depths reached.
pub open spec fn row_split<Y: Yard>(
    items: Seq<(i32, Y)>,
    k: nat,
    before: LayoutContext,
    after: LayoutContext,
    r: usize,
    cm: LayoutContext,
    cn: LayoutContext,
    c2: LayoutContext,
    c3: LayoutContext,
    i1: usize,
    i2: usize,
) -> bool {
    let n = before.spec_holdings().len();
    let (first, second) = Split::Right(items[k - 1].0).spec_divide(before.spec_edge());
    &&& pushed_into(before, cm, seq![first, second], n as usize)
    &&& left_to(cn, before, c2, false)
    &&& laid_at(&items[k - 1].1, c2, (n + 1) as usize, false, c3, i2, None)
    &&& ended_at_depth(before, c3, after, r, nearer(c3.spec_holdings()[i1 as int].z, c3.spec_holdings()[i2 as int].z))
}

/// What laying out the first `k` yards of a row does: the edge is split
/// into the part left of the `k`-th yard's columns and those columns, both
/// pushed; the first `k - 1` are laid out as a row in the left part, the
/// `k`-th in the right part, and the whole ends at the nearer of the depths
/// they reached (see [`row_split`]). An edge that cannot be split is left
/// as it is.
pub open spec fn row_laid<Y: Yard>(items: Seq<(i32, Y)>, k: nat, before: LayoutContext, after: LayoutContext, r: usize) -> bool
    decreases k,
{
    if k == 0 || !Split::Right(items[k - 1].0).divide_ok(before.spec_edge()) {
        r == before.spec_index() && same_state(before, after)
    } else {
        exists|cm: LayoutContext, cn: LayoutContext, c2: LayoutContext, c3: LayoutContext, i1: usize, i2: usize|
            #![trigger row_split(items, k, before, after, r, cm, cn, c2, c3, i1, i2)]
            row_split(items, k, before, after, r, cm, cn, c2, c3, i1, i2) && row_laid(items, (k - 1) as nat, cm, cn, i1)
    }
}

/// One way the split of a row's yards from the `j`-th on can go, but for
/// the rest of the row itself: the edge's two parts pushed (`c1`), the
/// `j`-th yard laid out in the left one ending at `i1` (`c2`), the right one
/// made the edge (`cm`); after the rest is laid out (leaving `cn`, ending at
/// `i2`), the edge is restored (`c3`) and the whole ends at the nearer of
/// the depths reached.
pub open spec fn columns_split<Y: Yard>(
    items: Seq<(i32, Y)>,
    j: nat,
    before: LayoutContext,
    after: LayoutContext,
    r: usize,
    c1: LayoutContext,
    c2: LayoutContext,
    cm: LayoutContext,
    cn: LayoutContext,
    c3: LayoutContext,
    i1: usize,
    i2: usize,
) -> bool {
    let n = before.spec_holdings().len();
    let (first, second) = Split::Left(items[j as int].0).spec_divide(before.spec_edge());
    &&& pushed(before, c1, seq![first, second])
    &&& laid_at(&items[j as int].1, c1, n as usize, false, c2, i1, None)
    &&& entered(c2, cm, (n + 1) as usize, false)
    &&& left_to(cn, c2, c3, false)
    &&& ended_at_depth(before, c3, after, r, nearer(c3.spec_holdings()[i1 as int].z, c3.spec_holdings()[i2 as int].z))
}

/// What laying out the yards of a row from the `j`-th on does: the edge is
/// split into the `j`-th yard's columns and the rest, both pushed; the
/// `j`-th yard is laid out in its columns, the rest as a row in what is
/// left, and the whole ends at the nearer of the depths they reached (see
/// [`columns_split`]). An edge that cannot be split is left as it is.
pub open spec fn columns_laid<Y: Yard>(items: Seq<(i32, Y)>, j: nat, before: LayoutContext, after: LayoutContext, r: usize) -> bool
    decreases items.len() - j,
{
    if j >= items.len() || !Split::Left(items[j as int].0).divide_ok(before.spec_edge()) {
        r == before.spec_index() && same_state(before, after)
    } else {
        exists|c1: LayoutContext, c2: LayoutContext, cm: LayoutContext, cn: LayoutContext, c3: LayoutContext, i1: usize, i2: usize|
            #![trigger columns_split(items, j, before, after, r, c1, c2, cm, cn, c3, i1, i2)]
            columns_split(items, j, before, after, r, c1, c2, cm, cn, c3, i1, i2) && columns_laid(items, j + 1, cm, cn, i2)
    }
}

/// Yards packed right in turn onto an empty yard: each `(cols, yard)` takes
/// `cols` columns at the right of what the ones before it left, so the last
/// yard takes the rightmost columns and the first stands leftmost.
#[derive(Debug)]
pub struct RowYard<Y> {
    pub id: i32,
    pub items: Vec<(i32, Y)>,
}

impl<Y: Yard> Yard for RowYard<Y> {
    open spec fn paints_in(&self, hold: BoundsHold, focus_id: i32) -> bool {
        items_paint_in(self.items@, hold, focus_id)
    }

    fn paints_ok(&self, hold: &BoundsHold, focus_id: i32) -> (r: bool) {
        items_paint_ok(&self.items, hold, focus_id)
    }

    /// Each yard of the row in turn.
    open spec fn painted(&self, hold: BoundsHold, focus_id: i32, row: int, col: int, s: SpotStack) -> SpotStack {
        items_painted(self.items@, self.items@.len() as int, hold, focus_id, row, col, s)
    }

    fn paint_spot(&self, hold: &BoundsHold, focus_id: i32, row: i32, col: i32, s: SpotStack) -> (r: SpotStack) {
        paint_items(&self.items, hold, focus_id, row, col, s)
    }

    open spec fn laid_out(&self, before: LayoutContext, after: LayoutContext, r: usize) -> bool {
        row_laid(self.items@, self.items@.len(), before, after, r)
    }

    fn id(&self) -> (r: i32)
        ensures
            r == self.id,
    {
        self.id
    }

    /// Ends in a region of the edge's extent at the nearest depth its yards
    /// reached.
    fn layout(&self, ctx: &mut LayoutContext) -> (r: usize)
        ensures
            same_extent(final(ctx).spec_holdings()[r as int], old(ctx).spec_edge()),
    {
        layout_row(ctx, &self.items, self.items.len())
    }
}

/// Lays out the first `k` yards of a row in the edge region, as a pack of
/// the first `k - 1` (at the left) and the `k`-th (at the right).
fn layout_row<Y: Yard>(ctx: &mut LayoutContext, items: &Vec<(i32, Y)>, k: usize) -> (r: usize)
    requires
        old(ctx).wf(),
        k <= items@.len(),
    ensures
        final(ctx).wf(),
        final(ctx).grew_from(*old(ctx)),
        r < final(ctx).spec_holdings().len(),
        same_extent(final(ctx).spec_holdings()[r as int], old(ctx).spec_edge()),
        row_laid(items@, k as nat, *old(ctx), *final(ctx), r),
    decreases k,
{
    let (edge_index, edge_bounds) = ctx.edge_bounds();
    let ghost c0 = *ctx;
    proof {
        lemma_take_all(ctx.spec_holdings());
    }
    if k == 0 {
        return edge_index;
    }
    let split = Split::Right(items[k - 1].0);
    if !split.divides(&edge_bounds) {
        return edge_index;
    }
    let (first, second) = split.divide(&edge_bounds);
    let first_index = ctx.push_bounds(&first);
    let ghost ca = *ctx;
    let second_index = ctx.push_bounds(&second);
    let ghost c1 = *ctx;
    proof {
        lemma_grew_transitive(c0, ca, c1);
    }
    ctx.set_edge(first_index);
    let ghost cm = *ctx;
    let first_layout_index = layout_row(ctx, items, k - 1);
    let ghost cn = *ctx;
    ctx.set_edge(edge_index);
    let ghost c2 = *ctx;
    proof {
        assert(c2.spec_holdings().take(cm.spec_holdings().len() as int) == cm.spec_holdings());
        assert(c2.grew_from(c1));
    }
    let (second_layout_index, _) = ctx.layout_at(&items[k - 1].1, second_index, false);
    let ghost c3 = *ctx;
    proof {
        lemma_grew_transitive(c1, c2, c3);
        lemma_grew_transitive(c0, c1, c3);
        assert(c3.spec_holdings().take(c2.spec_holdings().len() as int)[first_layout_index as int]
            == c2.spec_holdings()[first_layout_index as int]);
        assert(c3.spec_holdings().take(c0.spec_holdings().len() as int)[edge_index as int]
            == c0.spec_holdings()[edge_index as int]);
    }
    let first_z = ctx.bounds(first_layout_index).z;
    let second_z = ctx.bounds(second_layout_index).z;
    let min_z = if first_z <= second_z { first_z } else { second_z };
    let r = region_at_depth(ctx, edge_index, &edge_bounds, min_z);
    proof {
        lemma_grew_transitive(c0, c3, *ctx);
        assert(c1.spec_holdings() =~= c0.spec_holdings() + seq![first, second]);
        assert(pushed_into(c0, cm, seq![first, second], first_index));
        assert(row_laid(items@, (k - 1) as nat, cm, cn, first_layout_index));
        assert(left_to(cn, c0, c2, false));
        assert(laid_at(&items@[k - 1].1, c2, second_index, false, c3, second_layout_index, None));
        assert(ended_at_depth(c0, c3, *ctx, r, nearer(first_z, second_z)));
        assert(row_split(items@, k as nat, c0, *ctx, r, cm, cn, c2, c3, first_layout_index, second_layout_index));
    }
    r
}

/// Yards packed left in turn onto an empty yard, from the last to the
/// first: each `(cols, yard)` takes `cols` columns at the left of what the
/// ones before it in the list leave, so the first yard stands leftmost and
/// what no yard takes is left empty at the right.
#[derive(Debug)]
pub struct ColumnsYard<Y> {
    pub id: i32,
    pub items: Vec<(i32, Y)>,
}

impl<Y: Yard> Yard for ColumnsYard<Y> {
    open spec fn paints_in(&self, hold: BoundsHold, focus_id: i32) -> bool {
        items_paint_in(self.items@, hold, focus_id)
    }

    fn paints_ok(&self, hold: &BoundsHold, focus_id: i32) -> (r: bool) {
        items_paint_ok(&self.items, hold, focus_id)
    }

    /// Each yard of the row in turn.
    open spec fn painted(&self, hold: BoundsHold, focus_id: i32, row: int, col: int, s: SpotStack) -> SpotStack {
        items_painted(self.items@, self.items@.len() as int, hold, focus_id, row, col, s)
    }

    fn paint_spot(&self, hold: &BoundsHold, focus_id: i32, row: i32, col: i32, s: SpotStack) -> (r: SpotStack) {
        paint_items(&self.items, hold, focus_id, row, col, s)
    }

    open spec fn laid_out(&self, before: LayoutContext, after: LayoutContext, r: usize) -> bool {
        columns_laid(self.items@, 0, before, after, r)
    }

    fn id(&self) -> (r: i32)
        ensures
            r == self.id,
    {
        self.id
    }

    /// Ends in a region of the edge's extent at the nearest depth its yards
    /// reached.
    fn layout(&self, ctx: &mut LayoutContext) -> (r: usize)
        ensures
            same_extent(final(ctx).spec_holdings()[r as int], old(ctx).spec_edge()),
    {
        layout_columns(ctx, &self.items, 0)
    }
}

/// Lays out the yards of a row from the `j`-th on in the edge region, as a
/// pack of the `j`-th (at the left) and the rest.
fn layout_columns<Y: Yard>(ctx: &mut LayoutContext, items: &Vec<(i32, Y)>, j: usize) -> (r: usize)
    requires
        old(ctx).wf(),
        j <= items@.len(),
    ensures
        final(ctx).wf(),
        final(ctx).grew_from(*old(ctx)),
        r < final(ctx).spec_holdings().len(),
        same_extent(final(ctx).spec_holdings()[r as int], old(ctx).spec_edge()),
        columns_laid(items@, j as nat, *old(ctx), *final(ctx), r),
    decreases items@.len() - j,
{
    let (edge_index, edge_bounds) = ctx.edge_bounds();
    let ghost c0 = *ctx;
    proof {
        lemma_take_all(ctx.spec_holdings());
    }
    if j == items.len() {
        return edge_index;
    }
    let split = Split::Left(items[j].0);
    if !split.divides(&edge_bounds) {
        return edge_index;
    }
    let (first, second) = split.divide(&edge_bounds);
    let first_index = ctx.push_bounds(&first);
    let ghost ca = *ctx;
    let second_index = ctx.push_bounds(&second);
    let ghost c1 = *ctx;
    proof {
        lemma_grew_transitive(c0, ca, c1);
    }
    let (first_layout_index, _) = ctx.layout_at(&items[j].1, first_index, false);
    let ghost c2 = *ctx;
    proof {
        lemma_grew_transitive(c0, c1, c2);
    }
    ctx.set_edge(second_index);
    let ghost cm = *ctx;
    let second_layout_index = layout_columns(ctx, items, j + 1);
    let ghost cn = *ctx;
    ctx.set_edge(edge_index);
    let ghost c3 = *ctx;
    proof {
        assert(c3.spec_holdings().take(cm.spec_holdings().len() as int) == cm.spec_holdings());
        assert(c3.grew_from(c2));
        lemma_grew_transitive(c0, c2, c3);
        assert(c3.spec_holdings().take(c2.spec_holdings().len() as int)[first_layout_index as int]
            == c2.spec_holdings()[first_layout_index as int]);
        assert(c3.spec_holdings().take(c0.spec_holdings().len() as int)[edge_index as int]
            == c0.spec_holdings()[edge_index as int]);
    }
    let first_z = ctx.bounds(first_layout_index).z;
    let second_z = ctx.bounds(second_layout_index).z;
    let min_z = if first_z <= second_z { first_z } else { second_z };
    let r = region_at_depth(ctx, edge_index, &edge_bounds, min_z);
    proof {
        lemma_grew_transitive(c0, c3, *ctx);
        assert(c1.spec_holdings() =~= c0.spec_holdings() + seq![first, second]);
        assert(pushed(c0, c1, seq![first, second]));
        assert(laid_at(&items@[j as int].1, c1, first_index, false, c2, first_layout_index, None));
        assert(entered(c2, cm, second_index, false));
        assert(columns_laid(items@, (j + 1) as nat, cm, cn, second_layout_index));
        assert(left_to(cn, c2, c3, false));
        assert(ended_at_depth(c0, c3, *ctx, r, nearer(first_z, second_z)));
        assert(columns_split(items@, j as nat, c0, *ctx, r, c1, c2, cm, cn, c3, first_layout_index, second_layout_index));
    }
    r
}

/// A yard that sets the shade of its edge region.
#[derive(Copy, Clone, Debug)]
pub struct GradeYard {
    pub id: i32,
    pub grade: FillGrade,
}

/// A yard of shade `grade`, with a fresh random id.
pub fn grade(fill_grade: FillGrade) -> (y: GradeYard)
    ensures
        y.grade == fill_grade,
{
    GradeYard { id: random_id(), grade: fill_grade }
}

impl Yard for GradeYard {
    open spec fn paints_in(&self, hold: BoundsHold, focus_id: i32) -> bool {
        true
    }

    fn paints_ok(&self, hold: &BoundsHold, focus_id: i32) -> (r: bool) {
        true
    }

    /// A shade is kept by no cell: a grade paints nothing into one.
    open spec fn painted(&self, hold: BoundsHold, focus_id: i32, row: int, col: int, s: SpotStack) -> SpotStack {
        s
    }

    fn paint_spot(&self, hold: &BoundsHold, focus_id: i32, row: i32, col: i32, s: SpotStack) -> (r: SpotStack) {
        s
    }

    open spec fn laid_out(&self, before: LayoutContext, after: LayoutContext, r: usize) -> bool {
        occupied_edge(before, after, r, Some(self.id))
    }

    fn id(&self) -> (r: i32)
        ensures
            r == self.id,
    {
        self.id
    }

    fn layout(&self, ctx: &mut LayoutContext) -> (r: usize)
        ensures
            r == old(ctx).spec_index(),
            final(ctx).spec_holdings() == old(ctx).spec_holdings(),
            final(ctx).spec_yard_map() == old(ctx).spec_yard_map().insert(self.id, r),
            final(ctx).kept_foci(*old(ctx)),
    {
        layout_in_edge(self.id, ctx)
    }
}

/// A yard drawn in front of another: the far yard is laid out first in the
/// edge region, then the near yard one layer nearer than anything the far
/// yard reached.
#[derive(Debug)]
pub struct BeforeYard<N, F> {
    pub id: i32,
    pub near_yard: N,
    pub far_yard: F,
}

/// One way a `BeforeYard` layout can go: the far yard laid out in the edge
/// region ending at `i1`, then the near yard one layer nearer than the
/// depth reached ending at `i2` (unless that depth is the nearest possible),
/// and the whole ending at the nearest depth reached.
pub open spec fn before_step<N: Yard, F: Yard>(
    near: &N,
    far: &F,
    before: LayoutContext,
    after: LayoutContext,
    r: usize,
    c1: LayoutContext,
    i1: usize,
    c2: LayoutContext,
    i2: usize,
) -> bool {
    let e = before.spec_edge();
    let z1 = nearer(e.z, c1.spec_holdings()[i1 as int].z);
    &&& multi_laid(far, e, false, e, before, c1, i1, None)
    &&& if z1 > i32::MIN {
        &&& multi_laid(near, e, false, Bounds { z: (z1 - 1) as i32, ..e }, c1, c2, i2, None)
        &&& ended_at_depth(before, c2, after, r, nearer(z1, c2.spec_holdings()[i2 as int].z))
    } else {
        same_state(c1, c2) && ended_at_depth(before, c2, after, r, z1)
    }
}

impl<N: Yard, F: Yard> Yard for BeforeYard<N, F> {
    open spec fn paints_in(&self, hold: BoundsHold, focus_id: i32) -> bool {
        self.far_yard.paints_in(hold, focus_id) && self.near_yard.paints_in(hold, focus_id)
    }

    fn paints_ok(&self, hold: &BoundsHold, focus_id: i32) -> (r: bool) {
        self.far_yard.paints_ok(hold, focus_id) && self.near_yard.paints_ok(hold, focus_id)
    }

    /// The far yard, then the near yard.
    open spec fn painted(&self, hold: BoundsHold, focus_id: i32, row: int, col: int, s: SpotStack) -> SpotStack {
        self.near_yard.painted(hold, focus_id, row, col, self.far_yard.painted(hold, focus_id, row, col, s))
    }

    fn paint_spot(&self, hold: &BoundsHold, focus_id: i32, row: i32, col: i32, s: SpotStack) -> (r: SpotStack) {
        let far = self.far_yard.paint_spot(hold, focus_id, row, col, s);
        self.near_yard.paint_spot(hold, focus_id, row, col, far)
    }

    open spec fn laid_out(&self, before: LayoutContext, after: LayoutContext, r: usize) -> bool {
        exists|c1: LayoutContext, i1: usize, c2: LayoutContext, i2: usize|
            #![trigger before_step(&self.near_yard, &self.far_yard, before, after, r, c1, i1, c2, i2)]
            before_step(&self.near_yard, &self.far_yard, before, after, r, c1, i1, c2, i2)
    }

    fn id(&self) -> (r: i32)
        ensures
            r == self.id,
    {
        self.id
    }

    /// Ends in a region of the edge's extent at the nearest depth reached,
    /// never farther back than the edge. When the far yard already reached
    /// the nearest possible depth, the near yard is not laid out.
    fn layout(&self, ctx: &mut LayoutContext) -> (r: usize)
        ensures
            same_extent(final(ctx).spec_holdings()[r as int], old(ctx).spec_edge()),
            final(ctx).spec_holdings()[r as int].z <= old(ctx).spec_edge().z,
    {
        let (_edge_index, edge_bounds) = ctx.edge_bounds();
        let ghost c0 = *ctx;
        let mut multi_layout = MultiLayout::new(ctx);
        multi_layout.layout(ctx, &self.far_yard, &edge_bounds);
        let ghost c1 = *ctx;
        let ghost i1 = multi_layout.spec_end_index();
        let near_z = multi_layout.near_z();
        if near_z > i32::MIN {
            multi_layout.layout(ctx, &self.near_yard, &edge_bounds.with_z(near_z - 1));
            proof {
                lemma_grew_transitive(c0, c1, *ctx);
            }
        }
        let ghost c2 = *ctx;
        let ghost i2 = multi_layout.spec_end_index();
        let r = multi_layout.finish(ctx);
        proof {
            lemma_grew_transitive(c0, c2, *ctx);
            assert(before_step(&self.near_yard, &self.far_yard, c0, *ctx, r, c1, i1, c2, i2));
        }
        r
    }
}

/// One way a core's layout in a region `core` of the edge can go: `core`
/// pushed as region `j`, the yard laid out there ending at `i`; the whole
/// ends in the edge region when the yard ended at `j`, and otherwise in a
/// new region of the edge's extent at the yard's depth.
pub open spec fn core_step<Y: Yard>(
    yard: &Y,
    core: Bounds,
    before: LayoutContext,
    after: LayoutContext,
    r: usize,
    c1: LayoutContext,
    c2: LayoutContext,
    j: usize,
    i: usize,
) -> bool {
    let e = before.spec_edge();
    &&& j == before.spec_holdings().len()
    &&& pushed_one(before, c1, core)
    &&& laid_at(yard, c1, j, false, c2, i, None)
    &&& if i == j {
        r == before.spec_index() && same_state(c2, after)
    } else {
        r == c2.spec_holdings().len() && pushed_one(c2, after, Bounds { z: c2.spec_holdings()[i as int].z, ..e })
    }
}

/// A core laid out in the region `core` of the edge (see [`core_step`]).
pub open spec fn core_laid<Y: Yard>(yard: &Y, core: Bounds, before: LayoutContext, after: LayoutContext, r: usize) -> bool {
    exists|c1: LayoutContext, c2: LayoutContext, j: usize, i: usize|
        #![trigger core_step(yard, core, before, after, r, c1, c2, j, i)]
        core_step(yard, core, before, after, r, c1, c2, j, i)
}

/// A core laid out in the whole edge region, ending at `i`; the whole ends
/// at the edge when the core ended there, and otherwise at the core's depth.
pub open spec fn whole_step<Y: Yard>(
    yard: &Y,
    before: LayoutContext,
    after: LayoutContext,
    r: usize,
    c1: LayoutContext,
    i: usize,
) -> bool {
    let e = before.spec_edge();
    &&& laid_at(yard, before, before.spec_index(), false, c1, i, None)
    &&& ended_at_depth(
        before,
        c1,
        after,
        r,
        if i == before.spec_index() {
            e.z
        } else {
            c1.spec_holdings()[i as int].z
        },
    )
}

/// The edge region shrunk by the given margins.
pub open spec fn padded(e: Bounds, left_cols: i32, right_cols: i32, top_rows: i32, bottom_rows: i32) -> Bounds {
    Bounds {
        right: (e.right - right_cols) as i32,
        bottom: (e.bottom - bottom_rows) as i32,
        left: (e.left + left_cols) as i32,
        top: (e.top + top_rows) as i32,
        z: e.z,
    }
}

/// Whether padding `e` stays within `i32`.
pub open spec fn pads_ok(e: Bounds, left_cols: i32, right_cols: i32, top_rows: i32, bottom_rows: i32) -> bool {
    fits_i32(e.right - right_cols) && fits_i32(e.bottom - bottom_rows) && fits_i32(e.left + left_cols) && fits_i32(
        e.top + top_rows,
    )
}

/// A yard with margins: its core is laid out in the edge region shrunk by
/// the margins.
#[derive(Debug)]
pub struct PadYard<Y> {
    pub id: i32,
    pub left_cols: i32,
    pub right_cols: i32,
    pub top_rows: i32,
    pub bottom_rows: i32,
    pub yard: Y,
}

impl<Y: Yard> Yard for PadYard<Y> {
    open spec fn paints_in(&self, hold: BoundsHold, focus_id: i32) -> bool {
        self.yard.paints_in(hold, focus_id)
    }

    fn paints_ok(&self, hold: &BoundsHold, focus_id: i32) -> (r: bool) {
        self.yard.paints_ok(hold, focus_id)
    }

    /// The core.
    open spec fn painted(&self, hold: BoundsHold, focus_id: i32, row: int, col: int, s: SpotStack) -> SpotStack {
        self.yard.painted(hold, focus_id, row, col, s)
    }

    fn paint_spot(&self, hold: &BoundsHold, focus_id: i32, row: i32, col: i32, s: SpotStack) -> (r: SpotStack) {
        self.yard.paint_spot(hold, focus_id, row, col, s)
    }

    /// The core laid out in the padded edge region, or in the whole edge
    /// where padding would overflow.
    open spec fn laid_out(&self, before: LayoutContext, after: LayoutContext, r: usize) -> bool {
        let e = before.spec_edge();
        if pads_ok(e, self.left_cols, self.right_cols, self.top_rows, self.bottom_rows) {
            core_laid(&self.yard, padded(e, self.left_cols, self.right_cols, self.top_rows, self.bottom_rows), before, after, r)
        } else {
            exists|c1: LayoutContext, i: usize|
                #![trigger whole_step(&self.yard, before, after, r, c1, i)]
                whole_step(&self.yard, before, after, r, c1, i)
        }
    }

    fn id(&self) -> (r: i32)
        ensures
            r == self.id,
    {
        self.id
    }

    /// The core is laid out in the padded region, the next region pushed;
    /// the yard ends in the edge region when the core ends in the padded
    /// region, and otherwise in a region of the edge's extent at the core's
    /// depth. An edge whose padding would overflow `i32` is left to the core
    /// unpadded.
    fn layout(&self, ctx: &mut LayoutContext) -> (r: usize)
        ensures
            same_extent(final(ctx).spec_holdings()[r as int], old(ctx).spec_edge()),
            ({
                let e = old(ctx).spec_edge();
                let n = old(ctx).spec_holdings().len() as int;
                fits_i32(e.right - self.right_cols) && fits_i32(e.bottom - self.bottom_rows) && fits_i32(
                    e.left + self.left_cols,
                ) && fits_i32(e.top + self.top_rows) ==> final(ctx).spec_holdings().len() > n
                    && final(ctx).spec_holdings()[n] == (Bounds {
                    right: (e.right - self.right_cols) as i32,
                    bottom: (e.bottom - self.bottom_rows) as i32,
                    left: (e.left + self.left_cols) as i32,
                    top: (e.top + self.top_rows) as i32,
                    z: e.z,
                })
            }),
    {
        let (edge_index, edge_bounds) = ctx.edge_bounds();
        let ghost c0 = *ctx;
        if !pads(&edge_bounds, self.left_cols, self.right_cols, self.top_rows, self.bottom_rows) {
            let (core_index, _) = ctx.layout_at(&self.yard, edge_index, false);
            let ghost c1 = *ctx;
            proof {
                assert(c1.spec_holdings().take(c0.spec_holdings().len() as int)[edge_index as int]
                    == c0.spec_holdings()[edge_index as int]);
            }
            let core_z = ctx.bounds(core_index).z;
            let r = region_at_depth(ctx, edge_index, &edge_bounds, if core_index == edge_index { edge_bounds.z } else { core_z });
            proof {
                lemma_grew_transitive(c0, c1, *ctx);
                assert(whole_step(&self.yard, c0, *ctx, r, c1, core_index));
            }
            return r;
        }
        let alt_bounds = edge_bounds.pad(self.left_cols, self.right_cols, self.top_rows, self.bottom_rows);
        let alt_index = ctx.push_bounds(&alt_bounds);
        let ghost c1 = *ctx;
        let (core_index, _) = ctx.layout_at(&self.yard, alt_index, false);
        let ghost c2 = *ctx;
        proof {
            lemma_grew_transitive(c0, c1, c2);
            assert(c2.spec_holdings().take(c0.spec_holdings().len() as int)[edge_index as int]
                == c0.spec_holdings()[edge_index as int]);
            assert(c2.spec_holdings().take(c1.spec_holdings().len() as int)[alt_index as int]
                == c1.spec_holdings()[alt_index as int]);
            assert(c1.spec_holdings() =~= c0.spec_holdings() + seq![alt_bounds]);
        }
        if core_index == alt_index {
            proof {
                lemma_take_all(ctx.spec_holdings());
                assert(core_step(&self.yard, alt_bounds, c0, *ctx, edge_index, c1, c2, alt_index, core_index));
            }
            edge_index
        } else {
            let core_bounds = ctx.bounds(core_index);
            let final_bounds = edge_bounds.with_z(core_bounds.z);
            let r = ctx.push_bounds(&final_bounds);
            proof {
                lemma_grew_transitive(c0, c2, *ctx);
                assert(ctx.spec_holdings().take(c2.spec_holdings().len() as int)[alt_index as int]
                    == c2.spec_holdings()[alt_index as int]);
                assert(ctx.spec_holdings() =~= c2.spec_holdings() + seq![final_bounds]);
                assert(core_step(&self.yard, alt_bounds, c0, *ctx, r, c1, c2, alt_index, core_index));
            }
            r
        }
    }
}

/// Whether padding `b` stays within `i32`.
fn pads(b: &Bounds, left_cols: i32, right_cols: i32, top_rows: i32, bottom_rows: i32) -> (r: bool)
    ensures
        r == (fits_i32(b.right - right_cols) && fits_i32(b.bottom - bottom_rows) && fits_i32(b.left + left_cols)
            && fits_i32(b.top + top_rows)),
{
    let right: i64 = b.right as i64 - right_cols as i64;
    let bottom: i64 = b.bottom as i64 - bottom_rows as i64;
    let left: i64 = b.left as i64 + left_cols as i64;
    let top: i64 = b.top as i64 + top_rows as i64;
    let lo: i64 = i32::MIN as i64;
    let hi: i64 = i32::MAX as i64;
    lo <= right && right <= hi && lo <= bottom && bottom <= hi && lo <= left && left <= hi && lo <= top && top <= hi
}

/// A yard placed in a part of its edge region: `width` columns (or the
/// edge's width) and `height` rows (or the edge's height), clinging where
/// `cling` says.
#[derive(Debug)]
pub struct ConfineYard<Y> {
    pub id: i32,
    pub width: Option<i32>,
    pub height: Option<i32>,
    pub cling: Cling,
    pub yard: Y,
}

impl<Y: Yard> Yard for ConfineYard<Y> {
    open spec fn paints_in(&self, hold: BoundsHold, focus_id: i32) -> bool {
        self.yard.paints_in(hold, focus_id)
    }

    fn paints_ok(&self, hold: &BoundsHold, focus_id: i32) -> (r: bool) {
        self.yard.paints_ok(hold, focus_id)
    }

    /// The core.
    open spec fn painted(&self, hold: BoundsHold, focus_id: i32, row: int, col: int, s: SpotStack) -> SpotStack {
        self.yard.painted(hold, focus_id, row, col, s)
    }

    fn paint_spot(&self, hold: &BoundsHold, focus_id: i32, row: i32, col: i32, s: SpotStack) -> (r: SpotStack) {
        self.yard.paint_spot(hold, focus_id, row, col, s)
    }

    /// The core laid out in the confined region of the edge.
    open spec fn laid_out(&self, before: LayoutContext, after: LayoutContext, r: usize) -> bool {
        core_laid(&self.yard, core_region(before.spec_edge(), self.width, self.height, self.cling), before, after, r)
    }

    fn id(&self) -> (r: i32)
        ensures
            r == self.id,
    {
        self.id
    }

    /// The core is laid out in the confined region, the next region pushed;
    /// the yard ends in the edge region when the core ends in the confined
    /// region, and otherwise in a region of the edge's extent at the core's
    /// depth. An edge too wide or tall to confine exactly is left to the
    /// core whole.
    fn layout(&self, ctx: &mut LayoutContext) -> (r: usize)
        ensures
            same_extent(final(ctx).spec_holdings()[r as int], old(ctx).spec_edge()),
            final(ctx).spec_holdings()[old(ctx).spec_holdings().len() as int] == core_region(
                old(ctx).spec_edge(),
                self.width,
                self.height,
                self.cling,
            ),
    {
        layout_confined(ctx, &self.yard, self.width, self.height, self.cling)
    }
}

/// Lays `yard` out confined to a part of the edge region (see
/// [`ConfineYard`]).
fn layout_confined<Y: Yard>(
    ctx: &mut LayoutContext,
    yard: &Y,
    width: Option<i32>,
    height: Option<i32>,
    cling: Cling,
) -> (r: usize)
    requires
        old(ctx).wf(),
    ensures
        final(ctx).wf(),
        final(ctx).grew_from(*old(ctx)),
        r < final(ctx).spec_holdings().len(),
        same_extent(final(ctx).spec_holdings()[r as int], old(ctx).spec_edge()),
        final(ctx).spec_holdings().len() > old(ctx).spec_holdings().len(),
        final(ctx).spec_holdings()[old(ctx).spec_holdings().len() as int] == core_region(
            old(ctx).spec_edge(),
            width,
            height,
            cling,
        ),
        core_laid(yard, core_region(old(ctx).spec_edge(), width, height, cling), *old(ctx), *final(ctx), r),
{
    let (edge_index, edge_bounds) = ctx.edge_bounds();
    let ghost c0 = *ctx;
    let alt_bounds = match confined(&edge_bounds, width, height, cling) {
        Some(b) => b,
        None => edge_bounds,
    };
    let alt_index = ctx.push_bounds(&alt_bounds);
    let ghost c1 = *ctx;
    let (core_index, _) = ctx.layout_at(yard, alt_index, false);
    let ghost c2 = *ctx;
    proof {
        lemma_grew_transitive(c0, c1, c2);
        assert(c2.spec_holdings().take(c0.spec_holdings().len() as int)[edge_index as int]
            == c0.spec_holdings()[edge_index as int]);
        assert(c2.spec_holdings().take(c1.spec_holdings().len() as int)[alt_index as int]
            == c1.spec_holdings()[alt_index as int]);
        assert(c1.spec_holdings() =~= c0.spec_holdings() + seq![alt_bounds]);
    }
    if core_index == alt_index {
        proof {
            lemma_take_all(ctx.spec_holdings());
            assert(core_step(yard, alt_bounds, c0, *ctx, edge_index, c1, c2, alt_index, core_index));
        }
        edge_index
    } else {
        let core_bounds = ctx.bounds(core_index);
        let final_bounds = edge_bounds.with_z(core_bounds.z);
        let r = ctx.push_bounds(&final_bounds);
        proof {
            lemma_grew_transitive(c0, c2, *ctx);
            assert(ctx.spec_holdings().take(c2.spec_holdings().len() as int)[alt_index as int]
                == c2.spec_holdings()[alt_index as int]);
            assert(ctx.spec_holdings() =~= c2.spec_holdings() + seq![final_bounds]);
            assert(core_step(yard, alt_bounds, c0, *ctx, r, c1, c2, alt_index, core_index));
        }
        r
    }
}

/// Yards stacked down a column: the first at the top, and each next one in
/// the `height` rows at the bottom of a band `height + gap` rows tall below
/// the ones before it; the whole stack is `(height + gap) * count - gap`
/// rows tall and clings where `cling` says.
#[derive(Debug)]
pub struct TrellisYard<Y> {
    pub id: i32,
    pub height: i32,
    pub gap: i32,
    pub cling: Cling,
    pub strands: Vec<Y>,
}

/// The rows a trellis of `count` strands takes.
pub open spec fn trellis_height(height: int, gap: int, count: int) -> int {
    (height + gap) * count - gap
}

/// A trellis of `strands`, with a fresh random id.
pub fn trellis<Y: Yard>(height: i32, gap: i32, cling: Cling, strands: Vec<Y>) -> (r: TrellisYard<Y>)
    requires
        strands@.len() > 0,
        fits_i32(height + gap),
        fits_i32((height + gap) * strands@.len()),
        fits_i32(trellis_height(height as int, gap as int, strands@.len() as int)),
    ensures
        r.height == height,
        r.gap == gap,
        r.cling == cling,
        r.strands@ == strands@,
{
    TrellisYard { id: random_id(), height, gap, cling, strands }
}

impl<Y: Yard> TrellisYard<Y> {
    /// The stack's height fits an `i32`.
    pub open spec fn fits(&self) -> bool {
        &&& self.strands@.len() > 0
        &&& fits_i32(self.height + self.gap)
        &&& fits_i32((self.height + self.gap) * self.strands@.len())
        &&& fits_i32(trellis_height(self.height as int, self.gap as int, self.strands@.len() as int))
    }

    fn stack_height(&self) -> (r: Option<i32>)
        ensures
            r == (if self.fits() {
                Some(trellis_height(self.height as int, self.gap as int, self.strands@.len() as int) as i32)
            } else {
                None
            }),
    {
        let n = self.strands.len();
        if n == 0 {
            return None;
        }
        let band: i128 = self.height as i128 + self.gap as i128;
        if band < i32::MIN as i128 || band > i32::MAX as i128 {
            return None;
        }
        let n128: i128 = n as i128;
        proof {
            assert(-0x8000_0000 * 0xffff_ffff_ffff_ffff <= band * n128 <= 0x7fff_ffff * 0xffff_ffff_ffff_ffff)
                by (nonlinear_arith)
                requires -0x8000_0000 <= band <= 0x7fff_ffff, 1 <= n128 <= 0xffff_ffff_ffff_ffff;
        }
        let all: i128 = band * n128;
        if all < i32::MIN as i128 || all > i32::MAX as i128 {
            return None;
        }
        let total: i128 = all - self.gap as i128;
        if total < i32::MIN as i128 || total > i32::MAX as i128 {
            return None;
        }
        Some(total as i32)
    }
}

impl<Y: Yard> Yard for TrellisYard<Y> {
    open spec fn paints_in(&self, hold: BoundsHold, focus_id: i32) -> bool {
        strands_paint_in(self.strands@, hold, focus_id)
    }

    fn paints_ok(&self, hold: &BoundsHold, focus_id: i32) -> (r: bool) {
        strands_paint_ok(&self.strands, hold, focus_id)
    }

    /// Each strand in turn.
    open spec fn painted(&self, hold: BoundsHold, focus_id: i32, row: int, col: int, s: SpotStack) -> SpotStack {
        strands_painted(self.strands@, self.strands@.len() as int, hold, focus_id, row, col, s)
    }

    fn paint_spot(&self, hold: &BoundsHold, focus_id: i32, row: i32, col: i32, s: SpotStack) -> (r: SpotStack) {
        paint_strands(&self.strands, hold, focus_id, row, col, s)
    }

    /// The strands stacked in the part of the edge the stack's height
    /// confines them to; a trellis too tall for `i32` is left as it is.
    open spec fn laid_out(&self, before: LayoutContext, after: LayoutContext, r: usize) -> bool {
        if self.fits() {
            core_laid(
                &StackYard { strands: &self.strands, height: self.height, gap: self.gap },
                core_region(
                    before.spec_edge(),
                    None,
                    Some(trellis_height(self.height as int, self.gap as int, self.strands@.len() as int) as i32),
                    self.cling,
                ),
                before,
                after,
                r,
            )
        } else {
            r == before.spec_index() && same_state(before, after)
        }
    }

    fn id(&self) -> (r: i32)
        ensures
            r == self.id,
    {
        self.id
    }

    /// Ends as a confined yard does (see [`ConfineYard`]). A trellis whose
    /// height would overflow `i32` lays out nothing and ends in its edge
    /// region.
    fn layout(&self, ctx: &mut LayoutContext) -> (r: usize)
        ensures
            same_extent(final(ctx).spec_holdings()[r as int], old(ctx).spec_edge()),
    {
        match self.stack_height() {
            Some(total) => {
                let stack = StackYard { strands: &self.strands, height: self.height, gap: self.gap };
                layout_confined(ctx, &stack, None, Some(total), self.cling)
            },
            None => {
                let (edge_index, _) = ctx.edge_bounds();
                proof {
                    lemma_take_all(ctx.spec_holdings());
                }
                edge_index
            },
        }
    }
}

/// The strands of a trellis stacked in its region.
pub struct StackYard<'a, Y> {
    pub strands: &'a Vec<Y>,
    pub height: i32,
    pub gap: i32,
}

/// The rows from the top of one strand to the top of the next, or the
/// largest `i32` where that overflows.
pub open spec fn stack_band(height: i32, gap: i32) -> i32 {
    if fits_i32(height + gap) {
        (height + gap) as i32
    } else {
        i32::MAX
    }
}

/// One way the split of a stack's first `k` strands can go, but for the
/// first `k - 1` themselves: the edge's two parts pushed with the upper one
/// made the edge (`cm`); after the first `k - 1` are stacked there (leaving
/// `cn`, ending at `i1`), the lower part is made the edge (`cs`), the `k`-th
/// strand is confined to its bottom `height` rows (leaving `ct`, ending at
/// `i2`), the edge is restored (`c3`), and the whole ends at the nearer of
/// the depths reached.
pub open spec fn stack_split<Y: Yard>(
    strands: Seq<Y>,
    height: i32,
    band: i32,
    k: nat,
    before: LayoutContext,
    after: LayoutContext,
    r: usize,
    cm: LayoutContext,
    cn: LayoutContext,
    cs: LayoutContext,
    ct: LayoutContext,
    c3: LayoutContext,
    i1: usize,
    i2: usize,
) -> bool {
    let n = before.spec_holdings().len();
    let (first, second) = Split::Bottom(band).spec_divide(before.spec_edge());
    &&& pushed_into(before, cm, seq![first, second], n as usize)
    &&& entered(cn, cs, (n + 1) as usize, false)
    &&& core_laid(&strands[k - 1], core_region(second, None, Some(height), Cling::LeftBottom), cs, ct, i2)
    &&& left_to(ct, before, c3, false)
    &&& ended_at_depth(before, c3, after, r, nearer(c3.spec_holdings()[i1 as int].z, c3.spec_holdings()[i2 as int].z))
}

/// What laying out the first `k` strands of a stack does: a single strand
/// is laid out in the edge itself; otherwise the edge is split into the
/// last `band` rows and what is above, both pushed; the first `k - 1` are
/// stacked above, the `k`-th confined to the bottom `height` rows of the
/// band, and the whole ends at the nearer of the depths they reached (see
/// [`stack_split`]). An edge that cannot be split is left as it is.
pub open spec fn stack_laid<Y: Yard>(
    strands: Seq<Y>,
    height: i32,
    band: i32,
    k: nat,
    before: LayoutContext,
    after: LayoutContext,
    r: usize,
) -> bool
    decreases k,
{
    if k == 0 || (k > 1 && !Split::Bottom(band).divide_ok(before.spec_edge())) {
        r == before.spec_index() && same_state(before, after)
    } else if k == 1 {
        strands[0].laid_out(before, after, r)
    } else {
        exists|cm: LayoutContext, cn: LayoutContext, cs: LayoutContext, ct: LayoutContext, c3: LayoutContext, i1: usize, i2: usize|
            #![trigger stack_split(strands, height, band, k, before, after, r, cm, cn, cs, ct, c3, i1, i2)]
            stack_split(strands, height, band, k, before, after, r, cm, cn, cs, ct, c3, i1, i2)
                && stack_laid(strands, height, band, (k - 1) as nat, cm, cn, i1)
    }
}

impl<'a, Y: Yard> Yard for StackYard<'a, Y> {
    open spec fn paints_in(&self, hold: BoundsHold, focus_id: i32) -> bool {
        strands_paint_in(self.strands@, hold, focus_id)
    }

    fn paints_ok(&self, hold: &BoundsHold, focus_id: i32) -> (r: bool) {
        strands_paint_ok(self.strands, hold, focus_id)
    }

    /// Each strand in turn.
    open spec fn painted(&self, hold: BoundsHold, focus_id: i32, row: int, col: int, s: SpotStack) -> SpotStack {
        strands_painted(self.strands@, self.strands@.len() as int, hold, focus_id, row, col, s)
    }

    fn paint_spot(&self, hold: &BoundsHold, focus_id: i32, row: i32, col: i32, s: SpotStack) -> (r: SpotStack) {
        paint_strands(self.strands, hold, focus_id, row, col, s)
    }

    open spec fn laid_out(&self, before: LayoutContext, after: LayoutContext, r: usize) -> bool {
        stack_laid(self.strands@, self.height, stack_band(self.height, self.gap), self.strands@.len(), before, after, r)
    }

    /// The stack is part of its trellis and has no id of its own: it is
    /// always 0, and no region is ever recorded under it.
    fn id(&self) -> (r: i32)
        ensures
            r == 0,
    {
        0
    }

    fn layout(&self, ctx: &mut LayoutContext) -> (r: usize) {
        let band: i32 = if self.height as i64 + self.gap as i64 <= i32::MAX as i64 && self.height as i64
            + self.gap as i64 >= i32::MIN as i64 {
            self.height + self.gap
        } else {
            i32::MAX
        };
        layout_stack(ctx, self.strands, self.height, band, self.strands.len())
    }
}

/// Lays out the first `k` strands in the edge region: the first `k - 1` as
/// a stack above, and the `k`-th in the bottom `height` rows of the last
/// `band` rows.
fn layout_stack<Y: Yard>(ctx: &mut LayoutContext, strands: &Vec<Y>, height: i32, band: i32, k: usize) -> (r: usize)
    requires
        old(ctx).wf(),
        k <= strands@.len(),
    ensures
        final(ctx).wf(),
        final(ctx).grew_from(*old(ctx)),
        r < final(ctx).spec_holdings().len(),
        stack_laid(strands@, height, band, k as nat, *old(ctx), *final(ctx), r),
    decreases k,
{
    let (edge_index, edge_bounds) = ctx.edge_bounds();
    let ghost c0 = *ctx;
    proof {
        lemma_take_all(ctx.spec_holdings());
    }
    if k == 0 {
        return edge_index;
    }
    if k == 1 {
        return strands[0].layout(ctx);
    }
    let split = Split::Bottom(band);
    if !split.divides(&edge_bounds) {
        return edge_index;
    }
    let (first, second) = split.divide(&edge_bounds);
    let first_index = ctx.push_bounds(&first);
    let ghost ca = *ctx;
    let second_index = ctx.push_bounds(&second);
    let ghost c1 = *ctx;
    proof {
        lemma_grew_transitive(c0, ca, c1);
    }
    ctx.set_edge(first_index);
    let ghost cm = *ctx;
    let first_layout_index = layout_stack(ctx, strands, height, band, k - 1);
    let ghost cn = *ctx;
    ctx.set_edge(second_index);
    let ghost cs = *ctx;
    let second_layout_index = layout_confined(ctx, &strands[k - 1], None, Some(height), Cling::LeftBottom);
    let ghost ct = *ctx;
    ctx.set_edge(edge_index);
    let ghost c3 = *ctx;
    proof {
        assert(ct.spec_holdings().take(cm.spec_holdings().len() as int) == cm.spec_holdings()) by {
            assert(ct.spec_holdings().take(cs.spec_holdings().len() as int) == cs.spec_holdings());
            assert(cs.spec_holdings().take(cm.spec_holdings().len() as int) == cm.spec_holdings());
            assert(ct.spec_holdings().take(cs.spec_holdings().len() as int).take(cm.spec_holdings().len() as int)
                =~= ct.spec_holdings().take(cm.spec_holdings().len() as int));
        }
        assert(c3.grew_from(c1));
        lemma_grew_transitive(c0, c1, c3);
        assert(c3.spec_holdings().take(c0.spec_holdings().len() as int)[edge_index as int]
            == c0.spec_holdings()[edge_index as int]);
    }
    let first_z = ctx.bounds(first_layout_index).z;
    let second_z = ctx.bounds(second_layout_index).z;
    let min_z = if first_z <= second_z { first_z } else { second_z };
    let r = region_at_depth(ctx, edge_index, &edge_bounds, min_z);
    proof {
        lemma_grew_transitive(c0, c3, *ctx);
        assert(c1.spec_holdings() =~= c0.spec_holdings() + seq![first, second]);
        assert(pushed_into(c0, cm, seq![first, second], first_index));
        assert(stack_laid(strands@, height, band, (k - 1) as nat, cm, cn, first_layout_index));
        assert(cn.spec_holdings().take(cm.spec_holdings().len() as int)[second_index as int]
            == cm.spec_holdings()[second_index as int]);
        assert(cs.spec_edge() == second);
        assert(entered(cn, cs, second_index, false));
        assert(core_laid(&strands@[k - 1], core_region(second, None, Some(height), Cling::LeftBottom), cs, ct, second_layout_index));
        assert(left_to(ct, c0, c3, false));
        assert(ended_at_depth(c0, c3, *ctx, r, nearer(first_z, second_z)));
        assert(stack_split(strands@, height, band, k as nat, c0, *ctx, r, cm, cn, cs, ct, c3, first_layout_index, second_layout_index));
    }
    r
}

/// The part of `b` of the given size (the whole width or height where
/// none is given) that clings where `cling` says, or `None` when `b` is too
/// wide or tall to confine exactly.
pub open spec fn spec_confined(b: Bounds, width: Option<i32>, height: Option<i32>, cling: Cling) -> Option<Bounds> {
    let w = match width {
        Some(w) => w as int,
        None => b.spec_width(),
    };
    let h = match height {
        Some(h) => h as int,
        None => b.spec_height(),
    };
    if b.confine_ok(w, h, cling) {
        Some(b.spec_confine(w, h, cling))
    } else {
        None
    }
}

/// The region a confined core is laid out in: the confined part, or the
/// whole edge where it cannot be confined exactly.
pub open spec fn core_region(b: Bounds, width: Option<i32>, height: Option<i32>, cling: Cling) -> Bounds {
    match spec_confined(b, width, height, cling) {
        Some(c) => c,
        None => b,
    }
}

#[verifier::rlimit(40)]
fn confined(b: &Bounds, width: Option<i32>, height: Option<i32>, cling: Cling) -> (r: Option<Bounds>)
    ensures
        r == spec_confined(*b, width, height, cling),
{
    let w64: i64 = b.right as i64 - b.left as i64;
    let h64: i64 = b.bottom as i64 - b.top as i64;
    let lo: i64 = i32::MIN as i64;
    let hi: i64 = i32::MAX as i64;
    if w64 < lo || w64 > hi || h64 < lo || h64 > hi {
        return None;
    }
    let w: i32 = match width {
        Some(w) => w,
        None => w64 as i32,
    };
    let h: i32 = match height {
        Some(h) => h,
        None => h64 as i32,
    };
    let extra_w: i64 = w64 - w as i64;
    let extra_h: i64 = h64 - h as i64;
    if extra_w < -0x100_0000 || extra_w > 0x100_0000 || extra_h < -0x100_0000 || extra_h > 0x100_0000 {
        return None;
    }
    let xh: i64 = cling.x_halves() as i64;
    let yh: i64 = cling.y_halves() as i64;
    proof {
        assert(-0x100_0000 * 2 <= extra_w * xh <= 0x100_0000 * 2) by (nonlinear_arith)
            requires -0x100_0000 <= extra_w <= 0x100_0000, 0 <= xh <= 2;
        assert(-0x100_0000 * 2 <= extra_h * yh <= 0x100_0000 * 2) by (nonlinear_arith)
            requires -0x100_0000 <= extra_h <= 0x100_0000, 0 <= yh <= 2;
        assert((-extra_w) * xh == -(extra_w * xh)) by (nonlinear_arith);
        assert((-extra_h) * yh == -(extra_h * yh)) by (nonlinear_arith);
    }
    let left_extra: i64 = if extra_w >= 0 { (extra_w * xh) / 2 } else { -(((-extra_w) * xh) / 2) };
    let top_extra: i64 = if extra_h >= 0 { (extra_h * yh) / 2 } else { -(((-extra_h) * yh) / 2) };
    let right: i64 = b.right as i64 - (extra_w - left_extra);
    let bottom: i64 = b.bottom as i64 - (extra_h - top_extra);
    let left: i64 = b.left as i64 + left_extra;
    let top: i64 = b.top as i64 + top_extra;
    if right < lo || right > hi || bottom < lo || bottom > hi || left < lo || left > hi || top < lo || top > hi {
        return None;
    }
    Some(b.confine(w, h, cling))
}


/// A yard centred across its edge region in `width` columns, taking the
/// edge's full height.
#[derive(Debug)]
pub struct PlaceYard<Y> {
    pub id: i32,
    pub width: i32,
    pub core_yard: Y,
}

impl<Y: Yard> Yard for PlaceYard<Y> {
    open spec fn paints_in(&self, hold: BoundsHold, focus_id: i32) -> bool {
        self.core_yard.paints_in(hold, focus_id)
    }

    fn paints_ok(&self, hold: &BoundsHold, focus_id: i32) -> (r: bool) {
        self.core_yard.paints_ok(hold, focus_id)
    }

    /// The core.
    open spec fn painted(&self, hold: BoundsHold, focus_id: i32, row: int, col: int, s: SpotStack) -> SpotStack {
        self.core_yard.painted(hold, focus_id, row, col, s)
    }

    fn paint_spot(&self, hold: &BoundsHold, focus_id: i32, row: i32, col: i32, s: SpotStack) -> (r: SpotStack) {
        self.core_yard.paint_spot(hold, focus_id, row, col, s)
    }

    /// The core laid out in the centred region, pushed next; the whole ends
    /// at the depth the core reached.
    open spec fn laid_out(&self, before: LayoutContext, after: LayoutContext, r: usize) -> bool {
        let e = before.spec_edge();
        exists|c1: LayoutContext, c2: LayoutContext, j: usize, i: usize|
            #![trigger laid_at(&self.core_yard, c1, j, false, c2, i, None)]
            {
                &&& j == before.spec_holdings().len()
                &&& pushed_one(before, c1, core_region(e, Some(self.width), None, Cling::Center))
                &&& laid_at(&self.core_yard, c1, j, false, c2, i, None)
                &&& ended_at_depth(before, c2, after, r, c2.spec_holdings()[i as int].z)
            }
    }

    fn id(&self) -> (r: i32)
        ensures
            r == self.id,
    {
        self.id
    }

    /// The core is laid out in the centred region; the yard ends in its edge
    /// region when the core ends at the edge's depth, and otherwise in a
    /// region of the edge's extent at the core's depth. An edge too wide to
    /// centre in exactly is left to the core whole.
    fn layout(&self, ctx: &mut LayoutContext) -> (r: usize)
        ensures
            same_extent(final(ctx).spec_holdings()[r as int], old(ctx).spec_edge()),
            final(ctx).spec_holdings()[old(ctx).spec_holdings().len() as int] == core_region(
                old(ctx).spec_edge(),
                Some(self.width),
                None,
                Cling::Center,
            ),
    {
        let (edge_index, edge_bounds) = ctx.edge_bounds();
        let ghost c0 = *ctx;
        let core = match confined(&edge_bounds, Some(self.width), None, Cling::Center) {
            Some(b) => b,
            None => edge_bounds,
        };
        let core_index = ctx.push_bounds(&core);
        let ghost c1 = *ctx;
        let (core_layout_index, _) = ctx.layout_at(&self.core_yard, core_index, false);
        let ghost c2 = *ctx;
        proof {
            lemma_grew_transitive(c0, c1, c2);
            assert(c2.spec_holdings().take(c0.spec_holdings().len() as int)[edge_index as int]
                == c0.spec_holdings()[edge_index as int]);
        }
        let min_z = ctx.bounds(core_layout_index).z;
        let r = region_at_depth(ctx, edge_index, &edge_bounds, min_z);
        proof {
            lemma_grew_transitive(c0, c2, *ctx);
            assert(ctx.spec_holdings().take(c1.spec_holdings().len() as int)[core_index as int]
                == c1.spec_holdings()[core_index as int]);
            assert(c1.spec_holdings() =~= c0.spec_holdings() + seq![core]);
            assert(pushed_one(c0, c1, core));
            assert(laid_at(&self.core_yard, c1, core_index, false, c2, core_layout_index, None));
            assert(ended_at_depth(c0, c2, *ctx, r, min_z));
        }
        r
    }
}

/// A yard shown over another that is darkened around it: the rear yard
/// fills the edge region, the fore yard sits one layer nearer, inset by
/// `indent_cols` columns and `indent_rows` rows on each side, and focus is
/// held to the fore yard's depth.
#[derive(Debug)]
pub struct FadeYard<R, F> {
    pub id: i32,
    pub indent_cols: i32,
    pub indent_rows: i32,
    pub rear_yard: R,
    pub fore_yard: F,
}

impl<R, F> FadeYard<R, F> {
    /// The part of `bounds` left undarkened: the region inset by the
    /// indents; the rest of `bounds` is darkened over the rear yard.
    pub fn render(&self, bounds: &Bounds) -> (r: Bounds)
        requires
            fits_i32(bounds.right - self.indent_cols),
            fits_i32(bounds.bottom - self.indent_rows),
            fits_i32(bounds.left + self.indent_cols),
            fits_i32(bounds.top + self.indent_rows),
        ensures
            r == (Bounds {
                right: (bounds.right - self.indent_cols) as i32,
                bottom: (bounds.bottom - self.indent_rows) as i32,
                left: (bounds.left + self.indent_cols) as i32,
                top: (bounds.top + self.indent_rows) as i32,
                z: bounds.z,
            }),
    {
        bounds.pad(self.indent_cols, self.indent_cols, self.indent_rows, self.indent_rows)
    }
}

/// One way a `FadeYard` layout can go: the rear yard laid out in the edge
/// region ending at `i1`; when the fore yard can be placed, it is laid out
/// inset by the indents one layer nearer than the depth reached, ending at
/// `i2`; the parts end at the nearest depth reached (leaving `c3`), which
/// is recorded as the fade's region, and focus is then held to the fore
/// yard's depth.
pub open spec fn fade_step<R: Yard, F: Yard>(
    fade: &FadeYard<R, F>,
    before: LayoutContext,
    after: LayoutContext,
    r: usize,
    c1: LayoutContext,
    i1: usize,
    c2: LayoutContext,
    i2: usize,
    c3: LayoutContext,
) -> bool {
    let e = before.spec_edge();
    let cols = fade.indent_cols;
    let rows = fade.indent_rows;
    let z1 = nearer(e.z, c1.spec_holdings()[i1 as int].z);
    let placed = z1 > i32::MIN && pads_ok(e, cols, cols, rows, rows);
    &&& multi_laid(&fade.rear_yard, e, false, e, before, c1, i1, None)
    &&& if placed {
        &&& multi_laid(
            &fade.fore_yard,
            e,
            false,
            Bounds { z: (z1 - 1) as i32, ..padded(e, cols, cols, rows, rows) },
            c1,
            c2,
            i2,
            None,
        )
        &&& ended_at_depth(before, c2, c3, r, nearer(z1, c2.spec_holdings()[i2 as int].z))
    } else {
        same_state(c1, c2) && ended_at_depth(before, c2, c3, r, z1)
    }
    &&& after.spec_holdings() == c3.spec_holdings()
    &&& after.spec_yard_map() == c3.spec_yard_map().insert(fade.id, r)
    &&& after.spec_index() == c3.spec_index()
    &&& after.spec_foci() == c3.spec_foci()
    &&& after.spec_trapping() == c3.spec_trapping()
    &&& after.spec_trapped() == c3.spec_trapped()
    &&& after.spec_focus_max() == (if placed {
        (z1 - 1) as i32
    } else {
        c3.spec_focus_max()
    })
}

impl<R: Yard, F: Yard> Yard for FadeYard<R, F> {
    open spec fn paints_in(&self, hold: BoundsHold, focus_id: i32) -> bool {
        self.rear_yard.paints_in(hold, focus_id) && self.fore_yard.paints_in(hold, focus_id)
    }

    fn paints_ok(&self, hold: &BoundsHold, focus_id: i32) -> (r: bool) {
        self.rear_yard.paints_ok(hold, focus_id) && self.fore_yard.paints_ok(hold, focus_id)
    }

    /// The rear yard, then the fore yard (the darkening around the fore yard is a shade, which no cell keeps).
    open spec fn painted(&self, hold: BoundsHold, focus_id: i32, row: int, col: int, s: SpotStack) -> SpotStack {
        self.fore_yard.painted(hold, focus_id, row, col, self.rear_yard.painted(hold, focus_id, row, col, s))
    }

    fn paint_spot(&self, hold: &BoundsHold, focus_id: i32, row: i32, col: i32, s: SpotStack) -> (r: SpotStack) {
        let rear = self.rear_yard.paint_spot(hold, focus_id, row, col, s);
        self.fore_yard.paint_spot(hold, focus_id, row, col, rear)
    }

    open spec fn laid_out(&self, before: LayoutContext, after: LayoutContext, r: usize) -> bool {
        exists|c1: LayoutContext, i1: usize, c2: LayoutContext, i2: usize, c3: LayoutContext|
            #![trigger fade_step(self, before, after, r, c1, i1, c2, i2, c3)]
            fade_step(self, before, after, r, c1, i1, c2, i2, c3)
    }

    fn id(&self) -> (r: i32)
        ensures
            r == self.id,
    {
        self.id
    }

    /// Ends in a region of the edge's extent at the nearest depth reached,
    /// which is recorded as the fade's region. When the fore yard can be
    /// placed (its inset and depth stay within `i32`), focus is limited to
    /// its depth, which lies nearer than the edge.
    fn layout(&self, ctx: &mut LayoutContext) -> (r: usize)
        ensures
            same_extent(final(ctx).spec_holdings()[r as int], old(ctx).spec_edge()),
            final(ctx).spec_holdings()[r as int].z <= old(ctx).spec_edge().z,
            final(ctx).spec_yard_map().contains_key(self.id),
            final(ctx).spec_yard_map()[self.id] == r,
    {
        let (_edge_index, edge_bounds) = ctx.edge_bounds();
        let ghost c0 = *ctx;
        let mut multi_layout = MultiLayout::new(ctx);
        multi_layout.layout(ctx, &self.rear_yard, &edge_bounds);
        let ghost c1 = *ctx;
        let ghost i1 = multi_layout.spec_end_index();
        let rear_near_z = multi_layout.near_z();
        let cols = self.indent_cols;
        let rows = self.indent_rows;
        let placed = rear_near_z > i32::MIN && pads(&edge_bounds, cols, cols, rows, rows);
        if placed {
            let fore_z = rear_near_z - 1;
            let fore_bounds = edge_bounds.pad(cols, cols, rows, rows).with_z(fore_z);
            multi_layout.layout(ctx, &self.fore_yard, &fore_bounds);
            proof {
                lemma_grew_transitive(c0, c1, *ctx);
            }
        }
        let ghost c2 = *ctx;
        let ghost i2 = multi_layout.spec_end_index();
        let end_index = multi_layout.finish(ctx);
        let ghost c3 = *ctx;
        proof {
            lemma_grew_transitive(c0, c2, *ctx);
        }
        ctx.set_yard_bounds(self.id, end_index);
        if placed {
            ctx.set_focus_max(rear_near_z - 1);
        }
        proof {
            lemma_take_all(ctx.spec_holdings());
            assert(fade_step(self, c0, *ctx, end_index, c1, i1, c2, i2, c3));
        }
        end_index
    }
}

} // verus!
