//! Text fields: which edit each key asks for, when an arrow key moves the
//! cursor instead of moving focus, the focus a field offers in a layout, and
//! what a field shows of its text in the width it has.

use crate::bounds::{fits_i32, Bounds, BoundsHold};
use crate::paint::{field_cell, has_region, region_of};
use crate::screen::SpotStack;
use crate::combine::Before;
use crate::focus::{Focus, FocusAction, FocusKeys, FocusMotion, FocusMotionFuture, FocusType, MotionKeys};
use crate::layout::{lemma_take_all, LayoutContext, Yard};
use crate::link::SyncLink;
use crate::palette::{FillColor, StrokeColor};
use crate::yards::{fill_yard, BeforeYard, FillYard};
use vstd::prelude::*;

verus! {

/// An edit that a text field asks its string to make.
#[derive(Copy, Clone, Debug, PartialEq, Eq, Structural)]
pub enum EditAction {
    InsertChar(char),
    DeleteCharBeforeCursor,
    DeleteCharAtCursor,
    MoveCursorLeft,
    MoveCursorRight,
}

/// Whether `c` is a control character: Unicode general category Cc, the
/// code points `U+0000..=U+001F` and `U+007F..=U+009F`.
pub open spec fn spec_is_control(c: char) -> bool {
    (c as u32) <= 0x1f || (0x7f <= (c as u32) && (c as u32) <= 0x9f)
}

/// Whether `c` is a control character, as `char::is_control` says.
pub fn is_control(c: char) -> (r: bool)
    ensures
        r == spec_is_control(c),
{
    let code = c as u32;
    code <= 0x1f || (0x7f <= code && code <= 0x9f)
}

/// What a focused text field does with an arrow key, given where its
/// cursor stands among `char_count` characters: left and right move the
/// cursor while it can move that way (and the key goes no further);
/// otherwise focus may leave the field.
pub fn textfield_motion(cursor_index: usize, char_count: usize, motion: FocusMotion) -> (r: (
    FocusMotionFuture,
    Option<EditAction>,
))
    ensures
        r == (match motion {
            FocusMotion::Left => if cursor_index == 0 {
                (FocusMotionFuture::Default, None)
            } else {
                (FocusMotionFuture::Skip, Some(EditAction::MoveCursorLeft))
            },
            FocusMotion::Right => if cursor_index == char_count {
                (FocusMotionFuture::Default, None)
            } else {
                (FocusMotionFuture::Skip, Some(EditAction::MoveCursorRight))
            },
            _ => (FocusMotionFuture::Default, None),
        }),
{
    match motion {
        FocusMotion::Left => {
            if cursor_index == 0 {
                (FocusMotionFuture::Default, None)
            } else {
                (FocusMotionFuture::Skip, Some(EditAction::MoveCursorLeft))
            }
        },
        FocusMotion::Right => {
            if cursor_index == char_count {
                (FocusMotionFuture::Default, None)
            } else {
                (FocusMotionFuture::Skip, Some(EditAction::MoveCursorRight))
            }
        },
        FocusMotion::Up => (FocusMotionFuture::Default, None),
        FocusMotion::Down => (FocusMotionFuture::Default, None),
    }
}

/// The edit that a focus action asks of a text field: a printable
/// character is inserted, backspace (`U+0008`) deletes before the cursor,
/// delete (`U+007F`) deletes at the cursor, and anything else is ignored.
/// The field is redrawn exactly when an edit is asked for.
pub fn textfield_action(action: FocusAction) -> (r: Option<EditAction>)
    ensures
        r == (match action {
            FocusAction::Go => None,
            FocusAction::Change(c) => if !spec_is_control(c) {
                Some(EditAction::InsertChar(c))
            } else if c == '\u{8}' {
                Some(EditAction::DeleteCharBeforeCursor)
            } else if c == '\u{7f}' {
                Some(EditAction::DeleteCharAtCursor)
            } else {
                None
            },
        }),
{
    match action {
        FocusAction::Go => None,
        FocusAction::Change(c) => {
            if !is_control(c) {
                Some(EditAction::InsertChar(c))
            } else if c == '\u{8}' {
                Some(EditAction::DeleteCharBeforeCursor)
            } else if c == '\u{7f}' {
                Some(EditAction::DeleteCharAtCursor)
            } else {
                None
            }
        },
    }
}

/// A text field: a label, the characters typed so far with a cursor among
/// them, and the link on which the field asks for edits.
#[derive(Debug)]
pub struct TextfieldYard {
    pub id: i32,
    pub label_chars: Vec<char>,
    pub chars: Vec<char>,
    pub cursor_index: usize,
    pub update: SyncLink,
}

impl TextfieldYard {
    /// The cursor stands within or just after the text.
    pub open spec fn wf(&self) -> bool {
        self.cursor_index <= self.chars@.len()
    }

    /// What the body shows in `width` columns, focused or not: whether it
    /// is the hint, and otherwise the cursor's column and the text around
    /// it (see [`body_view_ok`]).
    pub open spec fn spec_body_parts(&self, width: int, focused: bool) -> (bool, int, Seq<char>, Option<char>, Seq<char>) {
        let chars = self.chars@;
        let n = chars.len() as int;
        let c = self.cursor_index as int;
        if !focused && n == 0 {
            (true, 0, Seq::empty(), None, Seq::empty())
        } else {
            let cursor_col = spec_cursor_col(n, c, width);
            (
                false,
                cursor_col,
                shown(chars.subrange(c - cursor_col, c)),
                if c < n && !spec_is_control(chars[c]) { Some(chars[c]) } else { None },
                if c + 1 < n { shown(chars.subrange(c + 1, n)) } else { Seq::<char>::empty() },
            )
        }
    }
}

/// The edit focus text field `t` offers over `bounds`: characters become
/// edits sent on its update link, and left and right move its cursor
/// among its characters.
pub open spec fn edit_focus(t: &TextfieldYard, bounds: Bounds) -> Focus {
    Focus {
        yard_id: t.id,
        focus_type: FocusType::Edit(
            MotionKeys::Cursor { link: t.update, cursor_index: t.cursor_index, char_count: t.chars@.len() as usize },
        ),
        bounds,
        priority: 0,
        action_block: FocusKeys::Edit { link: t.update },
    }
}

impl Yard for TextfieldYard {
    open spec fn paints_in(&self, hold: BoundsHold, focus_id: i32) -> bool {
        &&& has_region(hold, self.id)
        &&& self.wf()
        &&& self.renders_in(region_of(hold, self.id), focus_id == self.id)
    }

    fn paints_ok(&self, hold: &BoundsHold, focus_id: i32) -> (r: bool) {
        hold.has_region_for(self.id) && self.cursor_index <= self.chars.len() && self.renders_ok(
            hold.yard_bounds(self.id),
            focus_id == self.id,
        )
    }

    /// The field drawn in its region, focused while it holds the focus.
    open spec fn painted(&self, hold: BoundsHold, focus_id: i32, row: int, col: int, s: SpotStack) -> SpotStack {
        let focused = focus_id == self.id;
        let (head, body, foot) = textfield_rows(region_of(hold, self.id));
        field_cell(
            inset(head),
            spec_head_color(focused, self.label_chars@.len() > 0, self.chars@.len() > 0),
            foot,
            spec_foot_color(focused),
            inset(body),
            self.spec_body_parts(inset(body).spec_width(), focused),
            self.label_chars@,
            focused,
            row,
            col,
            s,
        )
    }

    fn paint_spot(&self, hold: &BoundsHold, focus_id: i32, row: i32, col: i32, s: SpotStack) -> (r: SpotStack) {
        let edge = hold.yard_bounds(self.id);
        let focused = focus_id == self.id;
        let view = self.render(edge, focused);
        view.paint_spot(&self.label_chars, focused, row, col, s)
    }

    /// Occupies the edge, recorded as the field's region, and offers an
    /// edit focus there.
    open spec fn laid_out(&self, before: LayoutContext, after: LayoutContext, r: usize) -> bool {
        &&& r == before.spec_index()
        &&& after.spec_holdings() == before.spec_holdings()
        &&& after.spec_index() == before.spec_index()
        &&& after.spec_trapping() == before.spec_trapping()
        &&& after.spec_yard_map() == before.spec_yard_map().insert(self.id, r)
        &&& after.offered(before, edit_focus(self, before.spec_edge()))
    }

    fn id(&self) -> (r: i32)
        ensures
            r == self.id,
    {
        self.id
    }

    /// Occupies its edge region, recorded as the field's region, and offers
    /// an edit focus there.
    fn layout(&self, ctx: &mut LayoutContext) -> (r: usize)
        ensures
            r == old(ctx).spec_index(),
            final(ctx).spec_holdings() == old(ctx).spec_holdings(),
            final(ctx).spec_yard_map() == old(ctx).spec_yard_map().insert(self.id, r),
            final(ctx).offered(*old(ctx), edit_focus(self, old(ctx).spec_edge())),
    {
        let (edge_index, edge_bounds) = ctx.edge_bounds();
        ctx.add_focus(
            Focus {
                yard_id: self.id,
                focus_type: FocusType::Edit(
                    MotionKeys::Cursor { link: self.update, cursor_index: self.cursor_index, char_count: self.chars.len() },
                ),
                bounds: edge_bounds,
                priority: 0,
                action_block: FocusKeys::Edit { link: self.update },
            },
        );
        ctx.set_yard_bounds(self.id, edge_index);
        proof {
            lemma_take_all(ctx.spec_holdings());
        }
        edge_index
    }
}

/// A text field in front of a background fill.
pub fn textfield(id: i32, label: &str, chars: Vec<char>, cursor_index: usize, update: SyncLink) -> (r: BeforeYard<
    TextfieldYard,
    FillYard,
>)
    requires
        cursor_index <= chars@.len(),
    ensures
        r.near_yard.id == id,
        r.near_yard.label_chars@ == label@,
        r.near_yard.chars@ == chars@,
        r.near_yard.cursor_index == cursor_index,
        r.near_yard.update == update,
        r.near_yard.wf(),
        r.far_yard.color == FillColor::Background,
{
    let label_chars = chars_of(label);
    let yard = TextfieldYard { id, label_chars, chars, cursor_index, update };
    yard.before(fill_yard(FillColor::Background))
}

/// The characters of `s`.
fn chars_of(s: &str) -> (r: Vec<char>)
    ensures
        r@ == s@,
{
    let mut r: Vec<char> = Vec::new();
    let n = s.unicode_len();
    let mut i: usize = 0;
    while i < n
        invariant
            n == s@.len(),
            i <= n,
            r@ == s@.subrange(0, i as int),
        decreases n - i,
    {
        let c = s.get_char(i);
        r.push(c);
        i = i + 1;
        proof {
            assert(r@ =~= s@.subrange(0, i as int));
        }
    }
    proof {
        assert(r@ =~= s@);
    }
    r
}

/// Characters as they are drawn: control characters show as spaces.
pub open spec fn shown(s: Seq<char>) -> Seq<char> {
    s.map_values(|c: char| if spec_is_control(c) { ' ' } else { c })
}

/// The column of the cursor within a body `width` columns wide, for `n`
/// characters with the cursor at `c`: the cursor's own index while the text
/// fits, and otherwise its proportional place, rounded up, among the first
/// `width - 1` columns. (A negative width counts as unbounded.) The ratio
/// is taken exactly; a single-precision computation of the same rule can
/// round it up a column further (26 characters, cursor at 14, 14 columns:
/// column 7 here, 8 in single precision).
pub open spec fn spec_cursor_col(n: int, c: int, width: int) -> int {
    if width < 0 || n < width {
        c
    } else {
        (c * (width - 1) + n - 1) / n
    }
}

/// What the body row of a text field shows.
#[derive(Debug)]
pub enum BodyView {
    /// Nothing typed and not focused: the label, if there is one, shows as
    /// a hint in comment colour.
    Hint,
    /// The text around the cursor: `pre` ends just left of the cursor's
    /// column, `cursor_glyph` sits in it, and `post` follows it.
    Edit { cursor_col: i32, pre: Vec<char>, cursor_glyph: Option<char>, post: Vec<char> },
}

/// `v` is what a body `width` columns wide shows of `chars` with the cursor
/// at `c`.
pub open spec fn body_view_ok(v: BodyView, chars: Seq<char>, c: int, width: int, focused: bool) -> bool {
    let n = chars.len() as int;
    if !focused && n == 0 {
        v is Hint
    } else {
        match v {
            BodyView::Edit { cursor_col, pre, cursor_glyph, post } => {
                &&& cursor_col == spec_cursor_col(n, c, width)
                &&& pre@ == shown(chars.subrange(c - cursor_col, c))
                &&& cursor_glyph == (if c < n && !spec_is_control(chars[c]) { Some(chars[c]) } else { None })
                &&& post@ == (if c + 1 < n { shown(chars.subrange(c + 1, n)) } else { Seq::<char>::empty() })
            },
            BodyView::Hint => false,
        }
    }
}

/// What a whole text field shows in its region: the head row, padded one
/// column each side, shows the label in `head_color` if any; the body rows
/// show `body` in `body_bounds`; the foot row is underlined in `foot_color`.
#[derive(Debug)]
pub struct TextfieldView {
    pub head_bounds: Bounds,
    pub head_color: Option<StrokeColor>,
    pub body_bounds: Bounds,
    pub body: BodyView,
    pub foot_bounds: Bounds,
    pub foot_color: StrokeColor,
}

/// The colour of the label in the head row: bright while focused, a
/// comment once something is typed, and absent otherwise (the label then
/// shows in the body) or when there is no label.
pub open spec fn spec_head_color(focused: bool, has_label: bool, typed: bool) -> Option<StrokeColor> {
    if !has_label {
        None
    } else if focused {
        Some(StrokeColor::EnabledOnBackground)
    } else if typed {
        Some(StrokeColor::Comment)
    } else {
        None
    }
}

/// The colour of the underline: bright while focused, a comment otherwise.
pub open spec fn spec_foot_color(focused: bool) -> StrokeColor {
    if focused {
        StrokeColor::EnabledOnBackground
    } else {
        StrokeColor::Comment
    }
}

/// The three rows of an edge region: the top row, the bottom row, and the
/// rest between them (each row clipped to the region).
pub open spec fn textfield_rows(edge: Bounds) -> (Bounds, Bounds, Bounds) {
    let mid = if edge.top + 1 <= edge.bottom { (edge.top + 1) as i32 } else { edge.bottom };
    let head = Bounds { bottom: mid, ..edge };
    let lower = Bounds { top: mid, ..edge };
    let cut = if lower.bottom - 1 >= lower.top { (lower.bottom - 1) as i32 } else { lower.top };
    (head, Bounds { bottom: cut, ..lower }, Bounds { top: cut, ..lower })
}

/// A region with one column taken off each side.
pub open spec fn inset(b: Bounds) -> Bounds {
    Bounds { left: (b.left + 1) as i32, right: (b.right - 1) as i32, ..b }
}

impl TextfieldYard {
    /// The edge regions the field can be drawn in: the rows and their
    /// insets stay within `i32`, and a focused field, or one with text, has
    /// a body at least one column wide or of negative width.
    pub open spec fn renders_in(&self, edge: Bounds, focused: bool) -> bool {
        let (head, body, foot) = textfield_rows(edge);
        &&& fits_i32(edge.top + 1)
        &&& fits_i32(edge.bottom - 1)
        &&& fits_i32(edge.left + 1)
        &&& fits_i32(edge.right - 1)
        &&& fits_i32(inset(body).spec_width())
        &&& self.chars@.len() <= i32::MAX
        &&& (focused || self.chars@.len() > 0) ==> inset(body).spec_width() != 0
    }

    /// Whether the field can be drawn in `edge`, focused or not (see
    /// `renders_in`).
    pub fn renders_ok(&self, edge: &Bounds, focused: bool) -> (r: bool)
        ensures
            r == self.renders_in(*edge, focused),
    {
        let lo: i64 = i32::MIN as i64;
        let hi: i64 = i32::MAX as i64;
        let top: i64 = edge.top as i64 + 1;
        let bottom: i64 = edge.bottom as i64 - 1;
        let left: i64 = edge.left as i64 + 1;
        let right: i64 = edge.right as i64 - 1;
        if top < lo || top > hi || bottom < lo || bottom > hi || left < lo || left > hi || right < lo || right > hi {
            return false;
        }
        let width: i64 = right - left;
        if width < lo || width > hi || self.chars.len() > 0x7fff_ffff {
            return false;
        }
        !(focused || self.chars.len() > 0) || width != 0
    }

    /// What the field shows in `edge`, focused or not.
    pub fn render(&self, edge: &Bounds, focused: bool) -> (r: TextfieldView)
        requires
            self.wf(),
            self.renders_in(*edge, focused),
        ensures
            ({
                let (head, body, foot) = textfield_rows(*edge);
                &&& r.head_bounds == inset(head)
                &&& r.head_color == spec_head_color(focused, self.label_chars@.len() > 0, self.chars@.len() > 0)
                &&& r.body_bounds == inset(body)
                &&& body_view_ok(
                    r.body,
                    self.chars@,
                    self.cursor_index as int,
                    inset(body).spec_width(),
                    focused,
                )
                &&& r.foot_bounds == foot
                &&& r.foot_color == spec_foot_color(focused)
            }),
    {
        let (head, lower) = edge.split_from_top(1);
        let (body, foot) = lower.split_from_bottom(1);
        let head_bounds = head.pad(1, 1, 0, 0);
        let body_bounds = body.pad(1, 1, 0, 0);
        let has_label = self.label_chars.len() > 0;
        let typed = self.chars.len() > 0;
        let head_color = if !has_label {
            None
        } else if focused {
            Some(StrokeColor::EnabledOnBackground)
        } else if typed {
            Some(StrokeColor::Comment)
        } else {
            None
        };
        let width = body_bounds.width();
        let body_view = self.render_body(width, focused);
        let foot_color = if focused { StrokeColor::EnabledOnBackground } else { StrokeColor::Comment };
        TextfieldView { head_bounds, head_color, body_bounds, body: body_view, foot_bounds: foot, foot_color }
    }

    /// What the body shows in `width` columns.
    pub fn render_body(&self, width: i32, focused: bool) -> (r: BodyView)
        requires
            self.wf(),
            self.chars@.len() <= i32::MAX,
            (focused || self.chars@.len() > 0) ==> width != 0,
        ensures
            body_view_ok(r, self.chars@, self.cursor_index as int, width as int, focused),
    {
        let n = self.chars.len();
        let c = self.cursor_index;
        if !focused && n == 0 {
            return BodyView::Hint;
        }
        let cursor_col: i32 = if width < 0 || (n as i64) < (width as i64) {
            c as i32
        } else {
            proof {
                assert(c * (width - 1) <= 0x7fff_ffff * 0x7fff_ffff) by (nonlinear_arith)
                    requires 0 <= c <= 0x7fff_ffff, 0 <= width - 1 <= 0x7fff_ffff;
                assert(0 <= c * (width - 1) <= c * (n - 1)) by (nonlinear_arith)
                    requires 0 <= c <= n, 1 <= width <= n;
                assert(c * (n - 1) + n - 1 < (c + 1) * n) by (nonlinear_arith)
                    requires 0 <= c, 1 <= n;
                assert((c * (width - 1) + n - 1) / (n as int) <= c) by (nonlinear_arith)
                    requires 0 <= c * (width - 1) + n - 1 < (c + 1) * n, 1 <= n;
            }
            let num: u128 = (c as u128) * ((width - 1) as u128) + (n as u128) - 1;
            (num / (n as u128)) as i32
        };
        proof {
            assert(0 <= cursor_col <= c) by (nonlinear_arith)
                requires
                    cursor_col == spec_cursor_col(n as int, c as int, width as int),
                    0 <= c <= n,
                    n <= i32::MAX,
                    (width < 0 || n < width) || (1 <= width <= n && (c * (width - 1) + n - 1) / (n as int) <= c);
        }
        let pre_start = c - cursor_col as usize;
        let pre = shown_range(&self.chars, pre_start, c);
        let cursor_glyph = if c < n && !is_control(self.chars[c]) { Some(self.chars[c]) } else { None };
        let post = if c + 1 < n { shown_range(&self.chars, c + 1, n) } else { Vec::new() };
        proof {
            assert(post@ =~= (if c + 1 < n { shown(self.chars@.subrange(c + 1, n as int)) } else { Seq::<char>::empty() }));
        }
        BodyView::Edit { cursor_col, pre, cursor_glyph, post }
    }
}

/// The characters `start..end` of `chars` as they are drawn.
fn shown_range(chars: &Vec<char>, start: usize, end: usize) -> (r: Vec<char>)
    requires
        start <= end <= chars@.len(),
    ensures
        r@ == shown(chars@.subrange(start as int, end as int)),
{
    let mut r: Vec<char> = Vec::new();
    let mut i: usize = start;
    while i < end
        invariant
            start <= i <= end <= chars@.len(),
            r@ == shown(chars@.subrange(start as int, i as int)),
        decreases end - i,
    {
        let c = chars[i];
        r.push(if is_control(c) { ' ' } else { c });
        i = i + 1;
        proof {
            assert(r@ =~= shown(chars@.subrange(start as int, i as int)));
        }
    }
    r
}

/// The cursor is always drawn within the body: its column lies among the
/// body's columns and no farther right than the cursor's index, so the text
/// before it, which ends just left of that column, fits in front of it.
pub proof fn lemma_cursor_visible(n: int, c: int, width: int)
    requires
        0 <= c <= n,
        width > 0,
    ensures
        0 <= spec_cursor_col(n, c, width) <= c,
        spec_cursor_col(n, c, width) < width,
{
    if n >= width {
        assert(0 <= c * (width - 1) <= n * (width - 1)) by (nonlinear_arith)
            requires 0 <= c <= n, width >= 1;
        assert(0 <= c * (width - 1) <= c * (n - 1)) by (nonlinear_arith)
            requires 0 <= c <= n, 1 <= width <= n;
        assert((c * (width - 1) + n - 1) / n <= c) by (nonlinear_arith)
            requires 0 <= c * (width - 1) <= c * (n - 1), 0 <= c, n >= 1;
        assert((c * (width - 1) + n - 1) / n < width) by (nonlinear_arith)
            requires 0 <= c * (width - 1) <= n * (width - 1), n >= 1, width >= 1;
        assert((c * (width - 1) + n - 1) / n >= 0) by (nonlinear_arith)
            requires c * (width - 1) + n - 1 >= 0, n >= 1;
    }
}

} // verus!
