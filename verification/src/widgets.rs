//! Buttons and pressable items as yards: what each shows and the focus it
//! offers in a layout.

use crate::bounds::{Bounds, BoundsHold, Cling};
use crate::paint::{fill_at, fill_spot, has_region, region_of};
use crate::screen::SpotStack;
use crate::button::{focus_priority, ButtonModel, ButtonState, Priority, SubmitAffordance};
use crate::focus::{Focus, FocusKeys, FocusType};
use crate::layout::{laid_at, lemma_take_all, lemma_grew_transitive, pushed_one, same_state, LayoutContext, Yard};
use crate::link::{random_id, SyncLink};
use crate::palette::{FillColor, FillGrade, StrokeColor};
use crate::combine::{Confine, Pack};
use crate::yards::{
    fill_yard, glyph_yard, label_yard, printable, ConfineYard, FillYard, GlyphYard, LabelYard, PackYard, Split,
};
use vstd::prelude::*;

verus! {

/// The uppercase form of a text, as `str::to_uppercase` gives it.
pub uninterp spec fn uppercase(text: Seq<char>) -> Seq<char>;

/// Calls `str::to_uppercase`, which maps each character of `text` to its
/// uppercase form by Unicode's tables and collects the results. The result
/// depends on the text alone, so it is named rather than spelled out.
#[verifier::external_body]
fn to_uppercase(text: &str) -> (r: String)
    ensures
        r@ == uppercase(text@),
{
    text.to_uppercase()
}

/// The focus priority a button state claims, if the button can be focused.
pub open spec fn state_priority<C>(state: ButtonState<C>) -> Option<u32> {
    match state {
        ButtonState::Enabled(p, _) => Some(if p == Priority::Default { 1000u32 } else { 0u32 }),
        ButtonState::Disabled => None,
    }
}

/// What a press of a button in `state` runs, if anything.
pub open spec fn state_press<C>(state: ButtonState<C>) -> Option<C> {
    match state {
        ButtonState::Enabled(_, c) => Some(c),
        ButtonState::Disabled => None,
    }
}

/// The focus priority a button model claims, if it can be focused: an
/// enabled or pressed button keeps its place as a focus.
pub open spec fn affordance_priority(a: SubmitAffordance) -> Option<u32> {
    match a {
        SubmitAffordance::Disabled => None,
        SubmitAffordance::Enabled { priority, .. } => Some(
            if priority == Priority::Default { 1000u32 } else { 0u32 },
        ),
        SubmitAffordance::Pressed { priority, .. } => Some(
            if priority == Priority::Default { 1000u32 } else { 0u32 },
        ),
    }
}

/// What a press of a button model sends on: only an enabled button takes
/// presses; a pressed one ignores them until it is released.
pub open spec fn affordance_press(a: SubmitAffordance) -> Option<SyncLink> {
    match a {
        SubmitAffordance::Enabled { press_link, .. } => Some(press_link),
        _ => None,
    }
}

/// The stroke colour of a button's label: enabled buttons stand out,
/// disabled ones are drawn as comments.
pub open spec fn label_color(enabled: bool) -> StrokeColor {
    if enabled {
        StrokeColor::EnabledOnBackground
    } else {
        StrokeColor::Comment
    }
}

/// The focus a submit region offers, doing `keys` when pressed.
pub open spec fn submit_focus(yard_id: i32, bounds: Bounds, priority: u32, keys: FocusKeys) -> Focus {
    Focus { yard_id, focus_type: FocusType::Submit, bounds, priority, action_block: keys }
}

/// What pressing a button in `state` does: an enabled button runs its
/// press handler.
pub open spec fn state_keys<C>(state: ButtonState<C>) -> FocusKeys {
    match state {
        ButtonState::Enabled(_, _) => FocusKeys::Touch,
        ButtonState::Disabled => FocusKeys::Ignore,
    }
}

/// What pressing the button of a model with id `id` does: an enabled
/// button sends its id on its press link; a pressed one ignores presses
/// until it is released.
pub open spec fn affordance_keys(a: SubmitAffordance, id: i32) -> FocusKeys {
    match a {
        SubmitAffordance::Enabled { press_link, .. } => FocusKeys::Send { link: press_link, value: id },
        _ => FocusKeys::Ignore,
    }
}

/// A button: a centred label over its edge region, and a submit focus on
/// that region with `focus_priority` when the button can be focused. A
/// press does `press_keys`: it runs `on_press` with the button's id, or
/// sends the id on a link.
#[derive(Debug)]
pub struct ButtonYard<C> {
    pub id: i32,
    pub label_yard: LabelYard,
    pub focus_priority: Option<u32>,
    pub on_press: Option<C>,
    pub press_keys: FocusKeys,
}

impl<C> Yard for ButtonYard<C> {
    open spec fn paints_in(&self, hold: BoundsHold, focus_id: i32) -> bool {
        self.label_yard.paints_in(hold, focus_id)
    }

    fn paints_ok(&self, hold: &BoundsHold, focus_id: i32) -> (r: bool) {
        self.label_yard.paints_ok(hold, focus_id)
    }

    /// The label (the shade of a focused or pressed button is kept by no cell).
    open spec fn painted(&self, hold: BoundsHold, focus_id: i32, row: int, col: int, s: SpotStack) -> SpotStack {
        self.label_yard.painted(hold, focus_id, row, col, s)
    }

    fn paint_spot(&self, hold: &BoundsHold, focus_id: i32, row: i32, col: i32, s: SpotStack) -> (r: SpotStack) {
        self.label_yard.paint_spot(hold, focus_id, row, col, s)
    }

    /// Occupies the edge, recorded for the label and the button, and offers
    /// the button's focus there if it has one.
    open spec fn laid_out(&self, before: LayoutContext, after: LayoutContext, r: usize) -> bool {
        &&& r == before.spec_index()
        &&& after.spec_holdings() == before.spec_holdings()
        &&& after.spec_index() == before.spec_index()
        &&& after.spec_trapping() == before.spec_trapping()
        &&& after.spec_yard_map() == before.spec_yard_map().insert(self.label_yard.id, r).insert(self.id, r)
        &&& match self.focus_priority {
            Some(p) => after.offered(before, submit_focus(self.id, before.spec_edge(), p, self.press_keys)),
            None => after.kept_foci(before),
        }
    }

    fn id(&self) -> (r: i32)
        ensures
            r == self.id,
    {
        self.id
    }

    /// Occupies its edge region, recorded for the label and the button, and
    /// offers its focus there if it has one.
    fn layout(&self, ctx: &mut LayoutContext) -> (r: usize)
        ensures
            r == old(ctx).spec_index(),
            final(ctx).spec_holdings() == old(ctx).spec_holdings(),
            final(ctx).spec_yard_map() == old(ctx).spec_yard_map().insert(self.label_yard.id, r).insert(
                self.id,
                r,
            ),
            match self.focus_priority {
                Some(p) => final(ctx).offered(*old(ctx), submit_focus(self.id, old(ctx).spec_edge(), p, self.press_keys)),
                None => final(ctx).kept_foci(*old(ctx)),
            },
    {
        let (edge_index, edge_bounds) = ctx.edge_bounds();
        self.label_yard.layout(ctx);
        match self.focus_priority {
            Some(priority) => {
                ctx.add_focus(
                    Focus {
                        yard_id: self.id,
                        focus_type: FocusType::Submit,
                        bounds: edge_bounds,
                        priority,
                        action_block: self.press_keys,
                    },
                );
            },
            None => {},
        }
        ctx.set_yard_bounds(self.id, edge_index);
        proof {
            lemma_take_all(ctx.spec_holdings());
        }
        edge_index
    }
}

impl<C> ButtonYard<C> {
    /// The shade of the button: pressed or focused while it holds the
    /// focus, plain otherwise. Only a button that offers a focus can hold
    /// it.
    pub fn render(&self, focus_id: i32, is_pressed: bool) -> (r: FillGrade)
        requires
            focus_id == self.id ==> self.focus_priority is Some,
        ensures
            r == (if focus_id == self.id {
                if is_pressed { FillGrade::Press } else { FillGrade::Focus }
            } else {
                FillGrade::Plain
            }),
    {
        if focus_id == self.id {
            if is_pressed { FillGrade::Press } else { FillGrade::Focus }
        } else {
            FillGrade::Plain
        }
    }
}

/// A button showing `text` in uppercase, with a fresh random id.
pub fn button<C>(text: &str, state: ButtonState<C>) -> (r: ButtonYard<C>)
    ensures
        r.label_yard.string@ == printable(uppercase(text@)),
        r.label_yard.color == label_color(state is Enabled),
        r.label_yard.cling == Cling::Center,
        r.focus_priority == state_priority(state),
        r.on_press == state_press(state),
        r.press_keys == state_keys(state),
{
    let id = random_id();
    let uppercase_text = to_uppercase(text);
    button_labelled(id, uppercase_text.as_str(), state)
}

/// A button `id` showing `label` as it is.
pub fn button_labelled<C>(id: i32, label: &str, state: ButtonState<C>) -> (r: ButtonYard<C>)
    ensures
        r.id == id,
        r.label_yard.string@ == printable(label@),
        r.label_yard.color == label_color(state is Enabled),
        r.label_yard.cling == Cling::Center,
        r.focus_priority == state_priority(state),
        r.on_press == state_press(state),
        r.press_keys == state_keys(state),
{
    let color = if state.is_enabled() { StrokeColor::EnabledOnBackground } else { StrokeColor::Comment };
    let label_yard = label_yard(label, color, Cling::Center);
    let (focus_priority, on_press, press_keys) = match state {
        ButtonState::Enabled(priority, click) => (Some(focus_priority(&priority)), Some(click), FocusKeys::Touch),
        ButtonState::Disabled => (None, None, FocusKeys::Ignore),
    };
    ButtonYard { id, label_yard, focus_priority, on_press, press_keys }
}

/// The yard of a button model: its label in uppercase, under the model's id.
pub fn button2(button: &ButtonModel) -> (r: ButtonYard<SyncLink>)
    ensures
        r.id == button.id,
        r.label_yard.string@ == printable(uppercase(button.label@)),
        r.label_yard.color == label_color(!(button.affordance is Disabled)),
        r.label_yard.cling == Cling::Center,
        r.focus_priority == affordance_priority(button.affordance),
        r.on_press == affordance_press(button.affordance),
        r.press_keys == affordance_keys(button.affordance, button.id),
{
    let uppercase_label = to_uppercase(button.label.as_str());
    button2_labelled(button, uppercase_label.as_str())
}

/// The yard of a button model showing `label` as it is.
pub fn button2_labelled(button: &ButtonModel, label: &str) -> (r: ButtonYard<SyncLink>)
    ensures
        r.id == button.id,
        r.label_yard.string@ == printable(label@),
        r.label_yard.color == label_color(!(button.affordance is Disabled)),
        r.label_yard.cling == Cling::Center,
        r.focus_priority == affordance_priority(button.affordance),
        r.on_press == affordance_press(button.affordance),
        r.press_keys == affordance_keys(button.affordance, button.id),
{
    let color = match button.affordance {
        SubmitAffordance::Disabled => StrokeColor::Comment,
        SubmitAffordance::Enabled { .. } => StrokeColor::EnabledOnBackground,
        SubmitAffordance::Pressed { .. } => StrokeColor::EnabledOnBackground,
    };
    let label_yard = label_yard(label, color, Cling::Center);
    let (focus_priority, on_press) = match button.affordance {
        SubmitAffordance::Disabled => (None, None),
        SubmitAffordance::Enabled { press_link, priority } => (Some(focus_priority(&priority)), Some(press_link)),
        SubmitAffordance::Pressed { priority, .. } => (Some(focus_priority(&priority)), None),
    };
    let press_keys = match button.affordance {
        SubmitAffordance::Enabled { press_link, .. } => FocusKeys::Send { link: press_link, value: button.id },
        _ => FocusKeys::Ignore,
    };
    ButtonYard { id: button.id, label_yard, focus_priority, on_press, press_keys }
}

/// The fill of a filled button: the focus colour while it holds the focus.
pub open spec fn filled_button_color(focused: bool) -> FillColor {
    if focused {
        FillColor::BackgroundWithFocus
    } else {
        FillColor::Background
    }
}

/// A button drawn as a label over a fill, always enabled.
#[derive(Debug)]
pub struct FilledButtonYard {
    pub id: i32,
    pub label_yard: LabelYard,
    pub fill_yard: FillYard,
}

impl Yard for FilledButtonYard {
    open spec fn paints_in(&self, hold: BoundsHold, focus_id: i32) -> bool {
        has_region(hold, self.fill_yard.id) && self.label_yard.paints_in(hold, focus_id)
    }

    fn paints_ok(&self, hold: &BoundsHold, focus_id: i32) -> (r: bool) {
        hold.has_region_for(self.fill_yard.id) && self.label_yard.paints_ok(hold, focus_id)
    }

    /// The fill over the fill yard's region, in the focus colour while the button holds the focus, then the label.
    open spec fn painted(&self, hold: BoundsHold, focus_id: i32, row: int, col: int, s: SpotStack) -> SpotStack {
        self.label_yard.painted(
            hold,
            focus_id,
            row,
            col,
            fill_spot(filled_button_color(focus_id == self.id), region_of(hold, self.fill_yard.id), row, col, s),
        )
    }

    fn paint_spot(&self, hold: &BoundsHold, focus_id: i32, row: i32, col: i32, s: SpotStack) -> (r: SpotStack) {
        let color = if focus_id == self.id { FillColor::BackgroundWithFocus } else { FillColor::Background };
        let filled = fill_at(color, hold.yard_bounds(self.fill_yard.id), row, col, s);
        self.label_yard.paint_spot(hold, focus_id, row, col, filled)
    }

    /// Occupies the edge, recorded for the fill and the label, and offers a
    /// submit focus there.
    open spec fn laid_out(&self, before: LayoutContext, after: LayoutContext, r: usize) -> bool {
        &&& r == before.spec_index()
        &&& after.spec_holdings() == before.spec_holdings()
        &&& after.spec_index() == before.spec_index()
        &&& after.spec_trapping() == before.spec_trapping()
        &&& after.spec_yard_map() == before.spec_yard_map().insert(self.fill_yard.id, r).insert(self.label_yard.id, r)
        &&& after.offered(before, submit_focus(self.id, before.spec_edge(), 0, FocusKeys::Ignore))
    }

    fn id(&self) -> (r: i32)
        ensures
            r == self.id,
    {
        self.id
    }

    /// Occupies its edge region, recorded for the fill and the label, and
    /// offers a submit focus there.
    fn layout(&self, ctx: &mut LayoutContext) -> (r: usize)
        ensures
            r == old(ctx).spec_index(),
            final(ctx).spec_holdings() == old(ctx).spec_holdings(),
            final(ctx).spec_yard_map() == old(ctx).spec_yard_map().insert(self.fill_yard.id, r).insert(
                self.label_yard.id,
                r,
            ),
            final(ctx).offered(*old(ctx), submit_focus(self.id, old(ctx).spec_edge(), 0, FocusKeys::Ignore)),
    {
        let (edge_index, edge_bounds) = ctx.edge_bounds();
        self.fill_yard.layout(ctx);
        self.label_yard.layout(ctx);
        ctx.add_focus(
            Focus {
                yard_id: self.id,
                focus_type: FocusType::Submit,
                bounds: edge_bounds,
                priority: 0,
                action_block: FocusKeys::Ignore,
            },
        );
        proof {
            lemma_take_all(ctx.spec_holdings());
        }
        edge_index
    }
}

/// A filled button showing `text` in uppercase, with a fresh random id.
pub fn button_yard(text: &str) -> (r: FilledButtonYard)
    ensures
        r.label_yard.string@ == printable(uppercase(text@)),
        r.label_yard.color == StrokeColor::EnabledOnBackground,
        r.label_yard.cling == Cling::Center,
        r.fill_yard.color == FillColor::BackgroundWithFocus,
{
    let uppercase_text = to_uppercase(text);
    filled_button(uppercase_text.as_str())
}

/// A filled button showing `label` as it is, with a fresh random id.
pub fn filled_button(label: &str) -> (r: FilledButtonYard)
    ensures
        r.label_yard.string@ == printable(label@),
        r.label_yard.color == StrokeColor::EnabledOnBackground,
        r.label_yard.cling == Cling::Center,
        r.fill_yard.color == FillColor::BackgroundWithFocus,
{
    let id = random_id();
    let label_yard = label_yard(label, StrokeColor::EnabledOnBackground, Cling::Center);
    let fill_yard = fill_yard(FillColor::BackgroundWithFocus);
    FilledButtonYard { id, label_yard, fill_yard }
}

/// A yard made pressable as a whole: its core is laid out one layer nearer,
/// with the core's own foci caught, and the whole edge region becomes one
/// submit focus, which does `press_keys` when pressed.
#[derive(Debug)]
pub struct PressYard<Y> {
    pub id: i32,
    pub yard: Y,
    pub press_keys: FocusKeys,
}

/// One way a `PressYard` layout can go: the core's region (`j`) is the edge
/// one layer nearer, pushed next, or the edge itself at the nearest
/// possible depth; the core is laid out there with its foci caught, ending
/// at `i`, which is recorded as the yard's region; and the yard offers one
/// submit focus over the whole edge.
pub open spec fn press_step<Y: Yard>(
    press: &PressYard<Y>,
    before: LayoutContext,
    after: LayoutContext,
    r: usize,
    c1: LayoutContext,
    j: usize,
    c2: LayoutContext,
    i: usize,
    caught: Option<Focus>,
) -> bool {
    let e = before.spec_edge();
    &&& if e.z > i32::MIN {
        j == before.spec_holdings().len() && pushed_one(before, c1, Bounds { z: (e.z - 1) as i32, ..e })
    } else {
        j == before.spec_index() && same_state(before, c1)
    }
    &&& laid_at(&press.yard, c1, j, true, c2, i, caught)
    &&& r == i
    &&& after.spec_holdings() == c2.spec_holdings()
    &&& after.spec_index() == c2.spec_index()
    &&& after.spec_trapping() == c2.spec_trapping()
    &&& after.spec_yard_map() == c2.spec_yard_map().insert(press.id, r)
    &&& after.offered(c2, submit_focus(press.id, e, 0, press.press_keys))
}

impl<Y: Yard> Yard for PressYard<Y> {
    open spec fn paints_in(&self, hold: BoundsHold, focus_id: i32) -> bool {
        self.yard.paints_in(hold, focus_id)
    }

    fn paints_ok(&self, hold: &BoundsHold, focus_id: i32) -> (r: bool) {
        self.yard.paints_ok(hold, focus_id)
    }

    /// The core (the shade of a focused or pressed yard is kept by no cell).
    open spec fn painted(&self, hold: BoundsHold, focus_id: i32, row: int, col: int, s: SpotStack) -> SpotStack {
        self.yard.painted(hold, focus_id, row, col, s)
    }

    fn paint_spot(&self, hold: &BoundsHold, focus_id: i32, row: i32, col: i32, s: SpotStack) -> (r: SpotStack) {
        self.yard.paint_spot(hold, focus_id, row, col, s)
    }

    open spec fn laid_out(&self, before: LayoutContext, after: LayoutContext, r: usize) -> bool {
        exists|c1: LayoutContext, j: usize, c2: LayoutContext, i: usize, caught: Option<Focus>|
            #![trigger press_step(self, before, after, r, c1, j, c2, i, caught)]
            press_step(self, before, after, r, c1, j, c2, i, caught)
    }

    fn id(&self) -> (r: i32)
        ensures
            r == self.id,
    {
        self.id
    }

    /// Ends where the core ends, which is recorded as the yard's region; the
    /// foci offered are the press yard's own alone. At the nearest possible
    /// depth the core is laid out in the edge region itself.
    fn layout(&self, ctx: &mut LayoutContext) -> (r: usize)
        ensures
            final(ctx).spec_yard_map().contains_key(self.id),
            final(ctx).spec_yard_map()[self.id] == r,
            final(ctx).spec_foci() == (if old(ctx).spec_trapping() {
                old(ctx).spec_foci()
            } else {
                old(ctx).spec_foci().push(
                    submit_focus(
                        self.id,
                        old(ctx).spec_edge(),
                        0,
                        self.press_keys,
                    ),
                )
            }),
            old(ctx).spec_edge().z > i32::MIN ==> final(ctx).spec_holdings()[old(ctx).spec_holdings().len() as int]
                == (Bounds { z: (old(ctx).spec_edge().z - 1) as i32, ..old(ctx).spec_edge() }),
    {
        let (edge_index, edge_bounds) = ctx.edge_bounds();
        let ghost c0 = *ctx;
        let core_start = if edge_bounds.z > i32::MIN {
            ctx.push_bounds(&edge_bounds.with_z(edge_bounds.z - 1))
        } else {
            proof {
                lemma_take_all(ctx.spec_holdings());
            }
            edge_index
        };
        let ghost c1 = *ctx;
        let ghost foci0 = ctx.spec_foci();
        let (core_finish, caught) = ctx.layout_at(&self.yard, core_start, true);
        proof {
            lemma_grew_transitive(c0, c1, *ctx);
        }
        let ghost c2 = *ctx;
        ctx.add_focus(
            Focus {
                yard_id: self.id,
                focus_type: FocusType::Submit,
                bounds: edge_bounds,
                priority: 0,
                action_block: self.press_keys,
            },
        );
        ctx.set_yard_bounds(self.id, core_finish);
        proof {
            lemma_take_all(ctx.spec_holdings());
            lemma_grew_transitive(c0, c2, *ctx);
            if edge_bounds.z > i32::MIN {
                assert(ctx.spec_holdings().take(c1.spec_holdings().len() as int)[core_start as int]
                    == c1.spec_holdings()[core_start as int]);
                assert(c1.spec_holdings() =~= c0.spec_holdings() + seq![Bounds { z: (edge_bounds.z - 1) as i32, ..edge_bounds }]);
            }
            assert(press_step(self, c0, *ctx, core_finish, c1, core_start, c2, core_finish, caught));
        }
        core_finish
    }
}

impl<Y> PressYard<Y> {
    /// The shade over the yard: pressed or focused while it holds the focus,
    /// none otherwise.
    pub fn render(&self, focus_id: i32, is_pressed: bool) -> (r: Option<FillGrade>)
        ensures
            r == (if focus_id == self.id {
                Some(if is_pressed { FillGrade::Press } else { FillGrade::Focus })
            } else {
                None
            }),
    {
        if focus_id == self.id {
            Some(if is_pressed { FillGrade::Press } else { FillGrade::Focus })
        } else {
            None
        }
    }
}

/// `yard` made pressable, with a fresh random id that a press sends.
pub fn pressable<Y: Yard>(yard: Y, on_press: SyncLink) -> (r: PressYard<Y>)
    ensures
        r.yard == yard,
        r.press_keys == (FocusKeys::Send { link: on_press, value: r.id }),
{
    let id = random_id();
    PressYard { id, yard, press_keys: FocusKeys::Send { link: on_press, value: id } }
}

/// A title: its text over a row of `=` as long as the text, both clinging
/// where `cling` says, in the top two rows of its region.
pub type TitleYard = ConfineYard<PackYard<LabelYard, ConfineYard<GlyphYard>>>;

/// A title showing `text` in `color`.
pub fn title(text: &str, color: StrokeColor, cling: Cling) -> (r: TitleYard)
    requires
        text@.len() <= i32::MAX,
    ensures
        r.width is None,
        r.height == Some(2i32),
        r.cling == Cling::Top,
        r.yard.divide == Split::Bottom(1),
        r.yard.first_yard.string@ == printable(text@),
        r.yard.first_yard.color == color,
        r.yard.first_yard.cling == cling,
        r.yard.second_yard.width == Some(text@.len() as i32),
        r.yard.second_yard.height == Some(1i32),
        r.yard.second_yard.cling == cling,
        r.yard.second_yard.yard.glyph == '=',
        r.yard.second_yard.yard.color == color,
{
    let length = text.unicode_len() as i32;
    let title = label_yard(text, color, cling);
    let underline = glyph_yard('=', color).confine(length, 1, cling);
    title.pack_bottom(1, underline).confine_height(2, Cling::Top)
}

} // verus!
