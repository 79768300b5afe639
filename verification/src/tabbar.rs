//! The tab bar: its tabs, which one is selected, and how the bar places
//! its tabs side by side.

use crate::bounds::{fits_i32, Bounds, BoundsHold, Cling};
use crate::paint::{fill_at, fill_spot, has_region, region_of};
use crate::screen::SpotStack;
use crate::combine::{Before, Pack, Place};
use crate::focus::{Focus, FocusAction, FocusKeys, FocusReply, FocusType};
use crate::layout::{ended_at_depth, entered, laid_at, left_to, pushed_one, LayoutContext, Yard};
use crate::link::{random_id, SyncLink};
use crate::palette::{FillColor, FillGrade, StrokeColor};
use crate::widgets::submit_focus;
use crate::yards::{
    before_step, core_region, empty_yard, fill_yard, glyph_yard, label_yard, nearer, printable, row_laid, row_split,
    BeforeYard, EmptyYard, FillYard, GlyphYard, LabelYard, PackYard, PlaceYard, RowYard, Split,
};
use vstd::prelude::*;
use vstd::string::StrSliceExecFns;

verus! {

/// A tab: an id and a label.
pub trait Tab {
    fn uid(&self) -> i32;

    fn label(&self) -> &str;
}

impl<'a> Tab for (i32, &'a str) {
    fn uid(&self) -> (r: i32)
        ensures
            r == self.0,
    {
        self.0
    }

    fn label(&self) -> (r: &str)
        ensures
            r@ == self.1@,
    {
        self.1
    }
}

impl Tab for (i32, String) {
    fn uid(&self) -> (r: i32)
        ensures
            r == self.0,
    {
        self.0
    }

    fn label(&self) -> (r: &str)
        ensures
            r@ == self.1@,
    {
        self.1.as_str()
    }
}

#[derive(Debug)]
pub struct TabItem {
    id: i32,
    label: String,
}

impl TabItem {
    pub closed spec fn spec_id(&self) -> i32 {
        self.id
    }

    pub closed spec fn spec_label(&self) -> Seq<char> {
        self.label@
    }

    pub fn new(id: i32, label: &str) -> (r: TabItem)
        ensures
            r.spec_id() == id,
            r.spec_label() == label@,
    {
        TabItem { id, label: label.to_owned() }
    }
}

/// The columns a tab takes: its label with two columns of margin each side.
pub open spec fn tab_width(label: Seq<char>) -> int {
    label.len() as int + 4
}

/// The columns that the first `n` tabs take side by side.
pub open spec fn widths_sum(items: Seq<TabItem>, n: int) -> int
    decreases n,
{
    if n <= 0 || n > items.len() {
        0
    } else {
        widths_sum(items, n - 1) + tab_width(items[n - 1].spec_label())
    }
}

/// Where and how the bar draws one of its tabs.
#[derive(Copy, Clone, Debug, PartialEq, Eq, Structural)]
pub struct TabPlacement {
    pub id: i32,
    pub index: usize,
    pub left: i32,
    pub width: i32,
    pub priority: u32,
    pub underline: char,
}

#[derive(Debug)]
pub struct TabBar {
    items: Vec<TabItem>,
    on_select: SyncLink,
    selected_index: usize,
}

impl TabBar {
    pub closed spec fn spec_items(&self) -> Seq<TabItem> {
        self.items@
    }

    pub closed spec fn spec_on_select(&self) -> SyncLink {
        self.on_select
    }

    pub closed spec fn spec_selected_index(&self) -> usize {
        self.selected_index
    }

    pub fn new(items: Vec<TabItem>, selected_index: usize, on_select: SyncLink) -> (r: TabBar)
        ensures
            r.spec_items() == items@,
            r.spec_selected_index() == selected_index,
            r.spec_on_select() == on_select,
    {
        TabBar { items, selected_index, on_select }
    }

    /// The bar's tabs fit side by side within `i32` columns.
    pub open spec fn fits(&self) -> bool {
        fits_i32(widths_sum(self.spec_items(), self.spec_items().len() as int))
    }

    /// The tabs, left to right from column 0: each as wide as its label
    /// plus four columns; the selected tab is underlined and outranks the
    /// others for the initial focus.
    pub fn placements(&self) -> (r: Vec<TabPlacement>)
        requires
            self.fits(),
        ensures
            r@.len() == self.spec_items().len(),
            forall|k: int|
                0 <= k < r@.len() ==> {
                    let p = #[trigger] r@[k];
                    let selected = k == self.spec_selected_index();
                    &&& p.id == self.spec_items()[k].spec_id()
                    &&& p.index == k
                    &&& p.left == widths_sum(self.spec_items(), k)
                    &&& p.width == tab_width(self.spec_items()[k].spec_label())
                    &&& p.priority == (if selected { 500u32 } else { 0u32 })
                    &&& p.underline == (if selected { '_' } else { '\0' })
                },
    {
        let mut placements: Vec<TabPlacement> = Vec::new();
        let mut left: i32 = 0;
        let mut i: usize = 0;
        while i < self.items.len()
            invariant
                self.fits(),
                i <= self.items@.len(),
                left == widths_sum(self.items@, i as int),
                placements@.len() == i,
                forall|k: int|
                    0 <= k < i ==> {
                        let p = #[trigger] placements@[k];
                        let selected = k == self.selected_index;
                        &&& p.id == self.items@[k].id
                        &&& p.index == k
                        &&& p.left == widths_sum(self.items@, k)
                        &&& p.width == tab_width(self.items@[k].label@)
                        &&& p.priority == (if selected { 500u32 } else { 0u32 })
                        &&& p.underline == (if selected { '_' } else { '\0' })
                    },
            decreases self.items@.len() - i,
        {
            proof {
                lemma_widths_sum_monotone(self.items@, i + 1, self.items@.len() as int);
                lemma_widths_sum_monotone(self.items@, 0, i as int);
            }
            let item = &self.items[i];
            let chars = item.label.as_str().unicode_len();
            let width = (chars + 4) as i32;
            let selected = i == self.selected_index;
            placements.push(
                TabPlacement {
                    id: item.id,
                    index: i,
                    left,
                    width,
                    priority: if selected { 500 } else { 0 },
                    underline: if selected { '_' } else { '\0' },
                },
            );
            left = left + width;
            i = i + 1;
        }
        placements
    }

    /// The columns that the whole bar takes.
    pub fn bar_width(&self) -> (r: i32)
        requires
            self.fits(),
        ensures
            r == widths_sum(self.spec_items(), self.spec_items().len() as int),
    {
        let mut width: i32 = 0;
        let mut i: usize = 0;
        while i < self.items.len()
            invariant
                self.fits(),
                i <= self.items@.len(),
                width == widths_sum(self.items@, i as int),
            decreases self.items@.len() - i,
        {
            proof {
                lemma_widths_sum_monotone(self.items@, i + 1, self.items@.len() as int);
                lemma_widths_sum_monotone(self.items@, 0, i as int);
            }
            let chars = self.items[i].label.as_str().unicode_len();
            width = width + (chars + 4) as i32;
            i = i + 1;
        }
        width
    }
}

/// The index a tab press selects: the pressed tab, unless it is already
/// the selected one, in which case nothing changes and no selection is
/// reported.
pub fn reselect(selected_index: usize, pressed_index: usize) -> (r: Option<usize>)
    ensures
        r == (if pressed_index != selected_index { Some(pressed_index) } else { None }),
{
    if pressed_index != selected_index {
        Some(pressed_index)
    } else {
        None
    }
}

/// The selection of a bar built by [`tabbar_yard`], which its tabs share:
/// a press of a tab selects it, and is reported only when it changes the
/// selection; the dashes underline the selected tab.
#[derive(Debug, Copy, Clone)]
pub struct TabSelection {
    selected_index: usize,
}

/// What a press of tab `pressed` does to selection `selected`: the new
/// selection, and the index reported, if any.
pub open spec fn spec_press_tab(selected: usize, pressed: usize) -> (usize, Option<usize>) {
    (pressed, if pressed != selected { Some(pressed) } else { None })
}

/// What answering `reply` does to selection `selected`: a reselection of
/// tab `i` selects it, and sends `i` on its link only when `i` was not
/// selected; any other reply leaves the selection and sends nothing.
pub open spec fn spec_answer(selected: usize, reply: FocusReply) -> (usize, Option<(SyncLink, usize)>) {
    match reply {
        FocusReply::Reselect(link, i) => (i, if i != selected { Some((link, i)) } else { None }),
        _ => (selected, None),
    }
}

impl TabSelection {
    pub closed spec fn spec_selected(self) -> usize {
        self.selected_index
    }

    pub fn new(selected_index: usize) -> (r: TabSelection)
        ensures
            r.spec_selected() == selected_index,
    {
        TabSelection { selected_index }
    }

    pub fn selected_index(&self) -> (r: usize)
        ensures
            r == self.spec_selected(),
    {
        self.selected_index
    }

    /// A press of tab `index`: it becomes the selected tab, and its index
    /// is reported when it was not selected already.
    pub fn press(&mut self, index: usize) -> (report: Option<usize>)
        ensures
            (final(self).spec_selected(), report) == spec_press_tab(old(self).spec_selected(), index),
    {
        let report = reselect(self.selected_index, index);
        self.selected_index = index;
        report
    }

    /// Answers what a pressed tab of the bar asks (see [`spec_answer`]):
    /// returns the link and the index to send on it, if any.
    pub fn answer(&mut self, reply: FocusReply) -> (sent: Option<(SyncLink, usize)>)
        ensures
            (final(self).spec_selected(), sent) == spec_answer(old(self).spec_selected(), reply),
    {
        match reply {
            FocusReply::Reselect(link, index) => match self.press(index) {
                Some(i) => Some((link, i)),
                None => None,
            },
            _ => None,
        }
    }

    /// The underline under tab `index`: dashes under the selected tab only.
    pub fn underline(&self, index: usize) -> (r: char)
        ensures
            r == (if index == self.spec_selected() { '-' } else { '\0' }),
    {
        if index == self.selected_index { '-' } else { '\0' }
    }

    /// The bar of `(id, label)` tabs showing this selection (see
    /// [`tabbar_yard`]).
    pub fn bar<'a>(&self, tabs: &Vec<(i32, &'a str)>, on_select: SyncLink) -> (r: TabBarYard)
        requires
            fits_i32(tabs_width(tabs@, tabs@.len() as int)),
        ensures
            exists|items: Seq<TabItem>|
                items_of(tabs@, items) && #[trigger] tabbar_ok(r, items, self.spec_selected(), on_select, '-', 0, true),
    {
        let r = tabbar_yard(tabs, self.selected_index, on_select);
        proof {
            let items = choose|items: Seq<TabItem>|
                items_of(tabs@, items) && #[trigger] tabbar_ok(r, items, self.selected_index, on_select, '-', 0, true);
            assert(tabbar_ok(r, items, self.spec_selected(), on_select, '-', 0, true));
        }
        r
    }
}

/// A second press of the same tab changes nothing and reports nothing, so
/// pressing a tab any number of times reports it at most once.
pub proof fn lemma_press_twice_reports_once(selected: usize, pressed: usize)
    ensures
        spec_press_tab(spec_press_tab(selected, pressed).0, pressed) == (pressed, None::<usize>),
{
}

/// After a press the pressed tab is the selected one, whatever was
/// selected before.
pub proof fn lemma_press_selects(selected: usize, pressed: usize)
    ensures
        spec_press_tab(selected, pressed).0 == pressed,
        spec_press_tab(selected, pressed).1 is Some <==> pressed != selected,
{
}

/// The drawing of a tab: its label, and under it the underline row.
pub type TabContent = PackYard<PackYard<EmptyYard, LabelYard>, GlyphYard>;

/// One tab of a bar: its content over its edge region, and a submit focus
/// there. A press sends the tab's index on `on_select` or, where the tab
/// `reselects`, selects the tab in the bar's shared selection, which
/// reports the index on `on_select` only when it changes.
#[derive(Debug)]
pub struct TabYard {
    pub id: i32,
    pub index: usize,
    pub content: TabContent,
    pub priority: u32,
    pub on_select: SyncLink,
    pub reselects: bool,
}

/// What a press of tab `t` does.
pub open spec fn tab_keys(t: TabYard) -> FocusKeys {
    if t.reselects {
        FocusKeys::Reselect { link: t.on_select, index: t.index }
    } else {
        FocusKeys::Select { link: t.on_select, index: t.index }
    }
}

/// What the application is asked to do when tab `index` of a bar
/// reporting on `link` is pressed.
pub open spec fn tab_reply(link: SyncLink, index: usize, reselects: bool) -> FocusReply {
    if reselects {
        FocusReply::Reselect(link, index)
    } else {
        FocusReply::Select(link, index)
    }
}

impl Yard for TabYard {
    open spec fn paints_in(&self, hold: BoundsHold, focus_id: i32) -> bool {
        has_region(hold, self.id) && self.content.paints_in(hold, focus_id)
    }

    fn paints_ok(&self, hold: &BoundsHold, focus_id: i32) -> (r: bool) {
        hold.has_region_for(self.id) && self.content.paints_ok(hold, focus_id)
    }

    /// The tab's region filled in the primary colour, then its content.
    open spec fn painted(&self, hold: BoundsHold, focus_id: i32, row: int, col: int, s: SpotStack) -> SpotStack {
        self.content.painted(hold, focus_id, row, col, fill_spot(FillColor::Primary, region_of(hold, self.id), row, col, s))
    }

    fn paint_spot(&self, hold: &BoundsHold, focus_id: i32, row: i32, col: i32, s: SpotStack) -> (r: SpotStack) {
        let filled = fill_at(FillColor::Primary, hold.yard_bounds(self.id), row, col, s);
        self.content.paint_spot(hold, focus_id, row, col, filled)
    }

    /// The content laid out in the edge region; then the edge is recorded as
    /// the tab's region and the tab's submit focus is offered there.
    open spec fn laid_out(&self, before: LayoutContext, after: LayoutContext, r: usize) -> bool {
        exists|c1: LayoutContext, i: usize|
            #![trigger self.content.laid_out(before, c1, i)]
            {
                &&& self.content.laid_out(before, c1, i)
                &&& c1.spec_trapping() == before.spec_trapping()
                &&& r == before.spec_index()
                &&& after.spec_holdings() == c1.spec_holdings()
                &&& after.spec_index() == c1.spec_index()
                &&& after.spec_trapping() == c1.spec_trapping()
                &&& after.spec_yard_map() == c1.spec_yard_map().insert(self.id, r)
                &&& after.offered(c1, submit_focus(self.id, before.spec_edge(), self.priority, tab_keys(*self)))
            }
    }

    fn id(&self) -> (r: i32)
        ensures
            r == self.id,
    {
        self.id
    }

    /// Occupies its edge region, recorded as the tab's region, after laying
    /// its content out there; its focus is the last one offered.
    fn layout(&self, ctx: &mut LayoutContext) -> (r: usize)
        ensures
            r == old(ctx).spec_index(),
            final(ctx).spec_yard_map().contains_key(self.id),
            final(ctx).spec_yard_map()[self.id] == r,
            final(ctx).offered_last(*old(ctx), submit_focus(
                    self.id,
                    old(ctx).spec_edge(),
                    self.priority,
                    tab_keys(*self),
                )),
    {
        let (bounds_id, bounds) = ctx.edge_bounds();
        let ghost c0 = *ctx;
        let content_index = self.content.layout(ctx);
        let ghost c1 = *ctx;
        proof {
            assert(ctx.spec_holdings().take(c0.spec_holdings().len() as int)[bounds_id as int]
                == c0.spec_holdings()[bounds_id as int]);
        }
        ctx.set_yard_bounds(self.id, bounds_id);
        ctx.add_focus(
            Focus {
                yard_id: self.id,
                focus_type: FocusType::Submit,
                bounds,
                priority: self.priority,
                action_block: if self.reselects {
                    FocusKeys::Reselect { link: self.on_select, index: self.index }
                } else {
                    FocusKeys::Select { link: self.on_select, index: self.index }
                },
            },
        );
        proof {
            assert(self.content.laid_out(c0, c1, content_index));
        }
        bounds_id
    }
}

impl TabYard {
    /// The tab's fill: primary, in the focus shade while it holds the focus.
    pub fn render(&self, focus_id: i32) -> (r: (FillColor, FillGrade))
        ensures
            r == (FillColor::Primary, if focus_id == self.id { FillGrade::Focus } else { FillGrade::Plain }),
    {
        (FillColor::Primary, if focus_id == self.id { FillGrade::Focus } else { FillGrade::Plain })
    }
}

/// The tab at `index` of a bar whose selected tab is `active_index`: its
/// label centred over an underline row that shows `_` when the tab is
/// selected, and the selected tab outranks the others for the initial
/// focus.
pub fn tab_yard(id: i32, label: &str, index: usize, active_index: usize, select: SyncLink) -> (r: TabYard)
    ensures
        tab_yard_ok(r, id, label@, index, active_index, '_', 500, select, false),
{
    tab_with(id, label, index, active_index, '_', 500, select, false)
}

/// The tab at `index` of a bar whose selected tab is `selected_index`: its
/// label centred over an underline row that shows `underline` when the tab
/// is selected.
fn tab_with(
    id: i32,
    label: &str,
    index: usize,
    selected_index: usize,
    underline: char,
    selected_priority: u32,
    on_select: SyncLink,
    reselects: bool,
) -> (r: TabYard)
    ensures
        tab_yard_ok(r, id, label@, index, selected_index, underline, selected_priority, on_select, reselects),
{
    let selected = index == selected_index;
    let label = label_yard(label, StrokeColor::PrimaryBody, Cling::Center);
    let underline = glyph_yard(if selected { underline } else { '\0' }, StrokeColor::PrimaryBody);
    let content = empty_yard().pack_bottom(1, label).pack_bottom(1, underline);
    TabYard { id, index, content, priority: if selected { selected_priority } else { 0 }, on_select, reselects }
}

/// `t` is the tab at `index` of a bar selecting `selected_index`.
pub open spec fn tab_yard_ok(
    t: TabYard,
    id: i32,
    label: Seq<char>,
    index: usize,
    selected_index: usize,
    underline: char,
    selected_priority: u32,
    on_select: SyncLink,
    reselects: bool,
) -> bool {
    let selected = index == selected_index;
    &&& t.reselects == reselects
    &&& t.id == id
    &&& t.index == index
    &&& t.on_select == on_select
    &&& t.priority == (if selected { selected_priority } else { 0u32 })
    &&& t.content.divide == crate::yards::Split::Bottom(1)
    &&& t.content.first_yard.divide == crate::yards::Split::Bottom(1)
    &&& t.content.first_yard.second_yard.string@ == printable(label)
    &&& t.content.first_yard.second_yard.color == StrokeColor::PrimaryBody
    &&& t.content.first_yard.second_yard.cling == Cling::Center
    &&& t.content.second_yard.glyph == (if selected { underline } else { '\0' })
    &&& t.content.second_yard.color == StrokeColor::PrimaryBody
}

/// The yard of a whole tab bar.
pub type TabBarYard = BeforeYard<PlaceYard<RowYard<TabYard>>, FillYard>;

/// `r` shows `items` as tabs side by side, centred in the bar's width, in
/// front of a primary fill.
pub open spec fn tabbar_ok(
    r: TabBarYard,
    items: Seq<TabItem>,
    selected_index: usize,
    on_select: SyncLink,
    underline: char,
    selected_priority: u32,
    reselects: bool,
) -> bool {
    let row = r.near_yard.core_yard.items@;
    &&& r.far_yard.color == FillColor::Primary
    &&& r.near_yard.width == widths_sum(items, items.len() as int)
    &&& row.len() == items.len()
    &&& forall|k: int|
        0 <= k < row.len() ==> {
            &&& (#[trigger] row[k]).0 == tab_width(items[k].spec_label())
            &&& tab_yard_ok(
                row[k].1,
                items[k].spec_id(),
                items[k].spec_label(),
                k as usize,
                selected_index,
                underline,
                selected_priority,
                on_select,
                reselects,
            )
        }
}

/// The tabs of `items`, each as wide as its label plus four columns, packed
/// right in turn and centred in front of a primary fill.
fn build_tabbar(
    items: &Vec<TabItem>,
    selected_index: usize,
    on_select: SyncLink,
    underline: char,
    selected_priority: u32,
    reselects: bool,
) -> (r: TabBarYard)
    requires
        fits_i32(widths_sum(items@, items@.len() as int)),
    ensures
        tabbar_ok(r, items@, selected_index, on_select, underline, selected_priority, reselects),
{
    let mut tabs: Vec<(i32, TabYard)> = Vec::new();
    let mut width: i32 = 0;
    let mut i: usize = 0;
    while i < items.len()
        invariant
            fits_i32(widths_sum(items@, items@.len() as int)),
            i <= items@.len(),
            width == widths_sum(items@, i as int),
            tabs@.len() == i,
            forall|k: int|
                0 <= k < i ==> {
                    &&& (#[trigger] tabs@[k]).0 == tab_width(items@[k].spec_label())
                    &&& tab_yard_ok(
                        tabs@[k].1,
                        items@[k].spec_id(),
                        items@[k].spec_label(),
                        k as usize,
                        selected_index,
                        underline,
                        selected_priority,
                        on_select,
                        reselects,
                    )
                },
        decreases items@.len() - i,
    {
        proof {
            lemma_widths_sum_monotone(items@, i + 1, items@.len() as int);
            lemma_widths_sum_monotone(items@, 0, i as int);
        }
        let item = &items[i];
        let chars = item.label.as_str().unicode_len();
        let tab_cols = (chars + 4) as i32;
        let tab = tab_with(
            item.id,
            item.label.as_str(),
            i,
            selected_index,
            underline,
            selected_priority,
            on_select,
            reselects,
        );
        tabs.push((tab_cols, tab));
        width = width + tab_cols;
        i = i + 1;
    }
    let bar = RowYard { id: random_id(), items: tabs };
    bar.place_center(width).before(fill_yard(FillColor::Primary))
}

/// The yard of `tab_bar`: its tabs side by side, centred, in front of a
/// primary fill. The selected tab is underlined and outranks the others
/// for the initial focus; a press of a tab sends its index on the bar's
/// link.
pub fn tabbar(tab_bar: &TabBar) -> (r: TabBarYard)
    requires
        tab_bar.fits(),
    ensures
        tabbar_ok(r, tab_bar.spec_items(), tab_bar.spec_selected_index(), tab_bar.spec_on_select(), '_', 500, false),
{
    build_tabbar(&tab_bar.items, tab_bar.selected_index, tab_bar.on_select, '_', 500, false)
}

/// Laying out tab `k` of a bar leaves, as the focus it offered last, a
/// submit region over its edge whose press asks for [`tab_reply`]: `k`
/// sent on the bar's link, or, in a bar whose tabs share a selection, tab
/// `k` selected there (caught, when the layout was trapping foci).
pub proof fn lemma_tab_press_sends_index(
    bar: TabBarYard,
    items: Seq<TabItem>,
    selected_index: usize,
    on_select: SyncLink,
    underline: char,
    selected_priority: u32,
    reselects: bool,
    k: int,
    before: LayoutContext,
    after: LayoutContext,
    r: usize,
    action: FocusAction,
)
    requires
        tabbar_ok(bar, items, selected_index, on_select, underline, selected_priority, reselects),
        0 <= k < items.len(),
        bar.near_yard.core_yard.items@[k].1.laid_out(before, after, r),
    ensures
        ({
            let tab = bar.near_yard.core_yard.items@[k].1;
            let offered = submit_focus(
                tab.id,
                before.spec_edge(),
                tab.priority,
                tab_keys(tab),
            );
            &&& offered.spec_act(action) == tab_reply(on_select, k as usize, reselects)
            &&& !before.spec_trapping() ==> after.spec_foci().len() > 0 && after.spec_foci().last() == offered
            &&& before.spec_trapping() ==> after.spec_trapped() == Some(offered)
        }),
{
    let tab = bar.near_yard.core_yard.items@[k].1;
    assert(tab_yard_ok(
        tab,
        items[k].spec_id(),
        items[k].spec_label(),
        k as usize,
        selected_index,
        underline,
        selected_priority,
        on_select,
        reselects,
    ));
    let (c1, i) = choose|c1: LayoutContext, i: usize|
        {
            &&& tab.content.laid_out(before, c1, i)
            &&& c1.spec_trapping() == before.spec_trapping()
            &&& r == before.spec_index()
            &&& after.spec_holdings() == c1.spec_holdings()
            &&& after.spec_index() == c1.spec_index()
            &&& after.spec_trapping() == c1.spec_trapping()
            &&& after.spec_yard_map() == c1.spec_yard_map().insert(tab.id, r)
            &&& after.offered(c1, submit_focus(tab.id, before.spec_edge(), tab.priority, tab_keys(tab)))
        };
}

/// Laying `yard` out leaves the foci and the caught focus as they were.
pub open spec fn keeps_foci<Y: Yard>(yard: &Y) -> bool {
    forall|b: LayoutContext, a: LayoutContext, r: usize|
        #[trigger] yard.laid_out(b, a, r) ==> a.spec_foci() == b.spec_foci() && a.spec_trapped() == b.spec_trapped()
}

/// A pack of two yards that keep the foci keeps them.
proof fn lemma_pack_keeps_foci<A: Yard, B: Yard>(p: &PackYard<A, B>)
    requires
        keeps_foci(&p.first_yard),
        keeps_foci(&p.second_yard),
    ensures
        keeps_foci(p),
{
    assert forall|b: LayoutContext, a: LayoutContext, r: usize| #[trigger] p.laid_out(b, a, r) implies a.spec_foci()
        == b.spec_foci() && a.spec_trapped() == b.spec_trapped() by {
    }
}

/// A tab's content (its label over its underline) offers no focus.
proof fn lemma_content_keeps_foci(content: &TabContent)
    ensures
        keeps_foci(content),
{
    assert(keeps_foci(&content.first_yard.first_yard));
    assert(keeps_foci(&content.first_yard.second_yard));
    assert(keeps_foci(&content.second_yard));
    lemma_pack_keeps_foci(&content.first_yard);
    lemma_pack_keeps_foci(content);
}

/// `f` is the focus tab `t` offers: a submit region under the tab's id and
/// priority whose press does what [`tab_keys`] says.
pub open spec fn tab_focus_ok(f: Focus, t: TabYard) -> bool {
    &&& f.yard_id == t.id
    &&& f.focus_type == FocusType::Submit
    &&& f.priority == t.priority
    &&& f.action_block == tab_keys(t)
}

/// Laying a tab out, when foci are not being caught, adds exactly its own
/// focus.
proof fn lemma_tab_adds_its_focus(t: TabYard, b: LayoutContext, a: LayoutContext, r: usize)
    requires
        t.laid_out(b, a, r),
        !b.spec_trapping(),
    ensures
        a.spec_foci() == b.spec_foci().push(a.spec_foci().last()),
        tab_focus_ok(a.spec_foci().last(), t),
        a.spec_trapping() == b.spec_trapping(),
{
    lemma_content_keeps_foci(&t.content);
}

/// `after` is `before` with one focus added for each of the first `k` of
/// `items`, in order: the one that item's tab offers.
pub open spec fn added_tab_foci(before: LayoutContext, after: LayoutContext, items: Seq<(i32, TabYard)>, k: int) -> bool {
    let n = before.spec_foci().len() as int;
    &&& after.spec_foci().len() == n + k
    &&& after.spec_foci().take(n) == before.spec_foci()
    &&& forall|j: int| 0 <= j < k ==> tab_focus_ok(#[trigger] after.spec_foci()[n + j], items[j].1)
}

/// Every split that laying out the first `k` yards of a row makes, in a
/// region from column `left` to column `right`, fits an `i32`.
pub open spec fn row_splits_fit<Y>(items: Seq<(i32, Y)>, k: nat, left: int, right: int) -> bool
    decreases k,
{
    k == 0 || {
        let cut = right - items[k - 1].0;
        &&& fits_i32(cut)
        &&& row_splits_fit(items, (k - 1) as nat, left, if cut >= left { cut } else { left })
    }
}

/// A row of tabs laid out where every split fits, when foci are not being
/// caught, offers one submit focus per tab, in the row's order, each the
/// one its tab offers.
proof fn lemma_tab_row_foci(items: Seq<(i32, TabYard)>, k: nat, before: LayoutContext, after: LayoutContext, r: usize)
    requires
        row_laid(items, k, before, after, r),
        !before.spec_trapping(),
        row_splits_fit(items, k, before.spec_edge().left as int, before.spec_edge().right as int),
        k <= items.len(),
        before.spec_holdings().len() + 2 * k <= usize::MAX,
    ensures
        added_tab_foci(before, after, items, k as int),
        after.spec_trapping() == before.spec_trapping(),
    decreases k,
{
    let n = before.spec_foci().len() as int;
    if k == 0 {
        assert(before.spec_foci().take(n) =~= before.spec_foci());
    } else {
        let (cm, cn, c2, c3, i1, i2) = choose|
            cm: LayoutContext,
            cn: LayoutContext,
            c2: LayoutContext,
            c3: LayoutContext,
            i1: usize,
            i2: usize,
        |
            row_split(items, k, before, after, r, cm, cn, c2, c3, i1, i2) && row_laid(items, (k - 1) as nat, cm, cn, i1);
        let h = before.spec_holdings().len();
        let (first, second) = Split::Right(items[k - 1].0).spec_divide(before.spec_edge());
        assert(cm.spec_holdings() == before.spec_holdings() + seq![first, second]);
        assert((before.spec_holdings() + seq![first, second])[h as int] == first);
        assert(cm.spec_edge() == first);
        lemma_tab_row_foci(items, (k - 1) as nat, cm, cn, i1);
        let (i, o) = choose|i: LayoutContext, o: LayoutContext|
            #![trigger items[k - 1].1.laid_out(i, o, i2)]
            entered(c2, i, (h + 1) as usize, false) && items[k - 1].1.laid_out(i, o, i2) && left_to(o, c2, c3, false);
        lemma_tab_adds_its_focus(items[k - 1].1, i, o, i2);
        let prev = cn.spec_foci();
        assert(after.spec_foci() == prev.push(o.spec_foci().last()));
        assert(after.spec_foci().take(n) =~= prev.take(n));
        assert forall|j: int| 0 <= j < k implies tab_focus_ok(#[trigger] after.spec_foci()[n + j], items[j].1) by {
            if j < k - 1 {
                assert(after.spec_foci()[n + j] == prev[n + j]);
            }
        }
    }
}

/// A tab bar laid out, when foci are not being caught, offers one submit
/// focus per tab, in the bar's order, each the one its tab offers (see
/// [`tab_focus_ok`]). This holds where the bar's region is not already at the
/// nearest possible depth (else the tabs are not laid out) and every split
/// of its row, centred one layer nearer, fits an `i32`.
pub proof fn lemma_tabbar_foci(bar: TabBarYard, before: LayoutContext, after: LayoutContext, r: usize)
    requires
        bar.laid_out(before, after, r),
        !before.spec_trapping(),
        before.wf(),
        before.spec_edge().z > i32::MIN,
        ({
            let e = before.spec_edge();
            let core = core_region(Bounds { z: (e.z - 1) as i32, ..e }, Some(bar.near_yard.width), None, Cling::Center);
            row_splits_fit(
                bar.near_yard.core_yard.items@,
                bar.near_yard.core_yard.items@.len(),
                core.left as int,
                core.right as int,
            )
        }),
        before.spec_holdings().len() + 2 * bar.near_yard.core_yard.items@.len() + 2 <= usize::MAX,
    ensures
        added_tab_foci(before, after, bar.near_yard.core_yard.items@, bar.near_yard.core_yard.items@.len() as int),
{
    let e = before.spec_edge();
    let place = bar.near_yard;
    let row = place.core_yard;
    let (c1, i1, c2, i2) = choose|c1: LayoutContext, i1: usize, c2: LayoutContext, i2: usize|
        #![trigger before_step(&bar.near_yard, &bar.far_yard, before, after, r, c1, i1, c2, i2)]
        before_step(&bar.near_yard, &bar.far_yard, before, after, r, c1, i1, c2, i2);
    assert(c1.spec_foci() == before.spec_foci());
    assert(c1.spec_holdings() == before.spec_holdings());
    let z1 = nearer(e.z, c1.spec_holdings()[i1 as int].z);
    assert(z1 == e.z);
    let nb = Bounds { z: (z1 - 1) as i32, ..e };
    assert(nb != e);
    let len1 = c1.spec_holdings().len() as usize;
    let cq = choose|cq: LayoutContext|
        #![trigger pushed_one(c1, cq, nb)]
        pushed_one(c1, cq, nb) && laid_at(&bar.near_yard, cq, len1, false, c2, i2, None);
    let (pi, po) = choose|pi: LayoutContext, po: LayoutContext|
        #![trigger bar.near_yard.laid_out(pi, po, i2)]
        entered(cq, pi, len1, false) && bar.near_yard.laid_out(pi, po, i2) && left_to(po, cq, c2, false);
    assert(cq.spec_holdings() == c1.spec_holdings() + seq![nb]);
    assert((c1.spec_holdings() + seq![nb])[len1 as int] == nb);
    assert(pi.spec_edge() == nb);
    let core = core_region(nb, Some(place.width), None, Cling::Center);
    let (p1, p2, j, i) = choose|p1: LayoutContext, p2: LayoutContext, j: usize, i: usize|
        #![trigger laid_at(&place.core_yard, p1, j, false, p2, i, None)]
        {
            &&& j == pi.spec_holdings().len()
            &&& pushed_one(pi, p1, core)
            &&& laid_at(&place.core_yard, p1, j, false, p2, i, None)
            &&& ended_at_depth(pi, p2, po, i2, p2.spec_holdings()[i as int].z)
        };
    let (ri, ro) = choose|ri: LayoutContext, ro: LayoutContext|
        #![trigger place.core_yard.laid_out(ri, ro, i)]
        entered(p1, ri, j, false) && place.core_yard.laid_out(ri, ro, i) && left_to(ro, p1, p2, false);
    assert(p1.spec_holdings() == pi.spec_holdings() + seq![core]);
    assert((pi.spec_holdings() + seq![core])[j as int] == core);
    assert(ri.spec_edge() == core);
    lemma_tab_row_foci(row.items@, row.items@.len(), ri, ro, i);
    assert(ri.spec_foci() == before.spec_foci());
    assert(after.spec_foci() == ro.spec_foci());
}

/// In a bar of `items` laid out as [`lemma_tabbar_foci`] says, the `k`-th
/// focus the bar offers belongs to the `k`-th tab, and pressing it asks for
/// [`tab_reply`] of `k`: `k` sent on the bar's link, or selected in the
/// bar's shared selection.
pub proof fn lemma_tabbar_press_sends_index(
    bar: TabBarYard,
    items: Seq<TabItem>,
    selected_index: usize,
    on_select: SyncLink,
    underline: char,
    selected_priority: u32,
    reselects: bool,
    before: LayoutContext,
    after: LayoutContext,
    r: usize,
    k: int,
    action: FocusAction,
)
    requires
        tabbar_ok(bar, items, selected_index, on_select, underline, selected_priority, reselects),
        added_tab_foci(before, after, bar.near_yard.core_yard.items@, bar.near_yard.core_yard.items@.len() as int),
        0 <= k < items.len(),
    ensures
        ({
            let f = after.spec_foci()[before.spec_foci().len() + k];
            &&& f.yard_id == items[k].spec_id()
            &&& f.focus_type == FocusType::Submit
            &&& f.spec_act(action) == tab_reply(on_select, k as usize, reselects)
        }),
{
    let n = before.spec_foci().len() as int;
    assert(tab_focus_ok(after.spec_foci()[n + k], bar.near_yard.core_yard.items@[k].1));
}

/// In a bar built by [`tabbar_yard`] for selection `selected_index` and
/// laid out as [`lemma_tabbar_foci`] says, pressing the `k`-th focus and
/// answering it with that selection selects tab `k`, and sends `k` on the
/// bar's link exactly when `k` was not selected; the bar then built for
/// the new selection underlines tab `k` alone.
pub proof fn lemma_tabbar_yard_press(
    bar: TabBarYard,
    items: Seq<TabItem>,
    selected_index: usize,
    on_select: SyncLink,
    before: LayoutContext,
    after: LayoutContext,
    k: int,
    action: FocusAction,
    next_bar: TabBarYard,
)
    requires
        tabbar_ok(bar, items, selected_index, on_select, '-', 0, true),
        added_tab_foci(before, after, bar.near_yard.core_yard.items@, bar.near_yard.core_yard.items@.len() as int),
        0 <= k < items.len(),
        items.len() <= usize::MAX,
        tabbar_ok(next_bar, items, k as usize, on_select, '-', 0, true),
    ensures
        ({
            let f = after.spec_foci()[before.spec_foci().len() + k];
            spec_answer(selected_index, f.spec_act(action)) == (
                k as usize,
                if k != selected_index { Some((on_select, k as usize)) } else { None },
            )
        }),
        forall|j: int|
            0 <= j < items.len() ==> (#[trigger] next_bar.near_yard.core_yard.items@[j]).1.content.second_yard.glyph
                == (if j == k { '-' } else { '\0' }),
{
    let n = before.spec_foci().len() as int;
    assert(tab_yard_ok(
        bar.near_yard.core_yard.items@[k].1,
        items[k].spec_id(),
        items[k].spec_label(),
        k as usize,
        selected_index,
        '-',
        0,
        on_select,
        true,
    ));
    assert(tab_focus_ok(after.spec_foci()[n + k], bar.near_yard.core_yard.items@[k].1));
    assert forall|j: int| 0 <= j < items.len() implies (#[trigger] next_bar.near_yard.core_yard.items@[j]).1.content.second_yard.glyph
        == (if j == k { '-' } else { '\0' }) by {
        assert(tab_yard_ok(
            next_bar.near_yard.core_yard.items@[j].1,
            items[j].spec_id(),
            items[j].spec_label(),
            j as usize,
            k as usize,
            '-',
            0,
            on_select,
            true,
        ));
    }
}

/// The items of a list of `(id, label)` tabs.
pub open spec fn items_of<'a>(tabs: Seq<(i32, &'a str)>, items: Seq<TabItem>) -> bool {
    &&& items.len() == tabs.len()
    &&& forall|k: int|
        0 <= k < tabs.len() ==> (#[trigger] items[k]).spec_id() == tabs[k].0 && items[k].spec_label()
            == tabs[k].1@
}

/// The columns that the first `n` of a list of `(id, label)` tabs take side by side.
pub open spec fn tabs_width<'a>(tabs: Seq<(i32, &'a str)>, n: int) -> int
    decreases n,
{
    if n <= 0 || n > tabs.len() {
        0
    } else {
        tabs_width(tabs, n - 1) + tab_width(tabs[n - 1].1@)
    }
}

proof fn lemma_tabs_width<'a>(tabs: Seq<(i32, &'a str)>, items: Seq<TabItem>, n: int)
    requires
        items_of(tabs, items),
        0 <= n <= tabs.len(),
    ensures
        widths_sum(items, n) == tabs_width(tabs, n),
    decreases n,
{
    if n > 0 {
        lemma_tabs_width(tabs, items, n - 1);
        assert(items[n - 1].spec_label() == tabs[n - 1].1@);
    }
}

/// A tab bar of `(id, label)` tabs: like [`tabbar`], with the selected tab
/// underlined by dashes and no tab outranking another. The bar's tabs share
/// one selection, kept in a [`TabSelection`]: a press of a tab asks it to
/// select that tab, and the tab's index is reported on `on_select` only
/// when it was not selected already (see [`TabSelection::answer`]). The
/// bar is built for the selection `selected_index`; [`TabSelection::bar`]
/// builds it for the current one.
pub fn tabbar_yard<'a>(tabs: &Vec<(i32, &'a str)>, selected_index: usize, on_select: SyncLink) -> (r: TabBarYard)
    requires
        fits_i32(tabs_width(tabs@, tabs@.len() as int)),
    ensures
        exists|items: Seq<TabItem>|
            items_of(tabs@, items) && #[trigger] tabbar_ok(r, items, selected_index, on_select, '-', 0, true),
{
    let mut items: Vec<TabItem> = Vec::new();
    let mut i: usize = 0;
    while i < tabs.len()
        invariant
            i <= tabs@.len(),
            items@.len() == i,
            forall|k: int|
                0 <= k < i ==> (#[trigger] items@[k]).spec_id() == tabs@[k].0 && items@[k].spec_label()
                    == tabs@[k].1@,
        decreases tabs@.len() - i,
    {
        let (id, label) = tabs[i];
        items.push(TabItem::new(id, label));
        i = i + 1;
    }
    proof {
        lemma_tabs_width(tabs@, items@, tabs@.len() as int);
    }
    let r = build_tabbar(&items, selected_index, on_select, '-', 0, true);
    assert(tabbar_ok(r, items@, selected_index, on_select, '-', 0, true));
    r
}

/// The state of a tabs screen: its tabs and which one is active.
#[derive(Debug)]
pub struct TabsState {
    pub active_index: usize,
    pub tabs: Vec<(i32, String)>,
}

/// A screen of tabs that reports the index of the tab selected.
#[derive(Debug)]
pub struct TabsSpark {
    pub tabs: Vec<(i32, String)>,
}

/// The items of a list of `(id, label)` tabs with owned labels.
pub open spec fn owned_items_of(tabs: Seq<(i32, String)>, items: Seq<TabItem>) -> bool {
    &&& items.len() == tabs.len()
    &&& forall|k: int|
        0 <= k < tabs.len() ==> (#[trigger] items[k]).spec_id() == tabs[k].0 && items[k].spec_label()
            == tabs[k].1@
}

impl TabsSpark {
    /// The first state: the spark's tabs, the first one active.
    pub fn create(&self) -> (r: TabsState)
        ensures
            r.active_index == 0,
            r.tabs@.len() == self.tabs@.len(),
            forall|k: int|
                0 <= k < self.tabs@.len() ==> (#[trigger] r.tabs@[k]).0 == self.tabs@[k].0 && r.tabs@[k].1@
                    == self.tabs@[k].1@,
    {
        let mut tabs: Vec<(i32, String)> = Vec::new();
        let mut i: usize = 0;
        while i < self.tabs.len()
            invariant
                i <= self.tabs@.len(),
                tabs@.len() == i,
                forall|k: int|
                    0 <= k < i ==> (#[trigger] tabs@[k]).0 == self.tabs@[k].0 && tabs@[k].1@ == self.tabs@[k].1@,
            decreases self.tabs@.len() - i,
        {
            let tab = &self.tabs[i];
            let uid = tab.uid();
            let label = tab.label();
            tabs.push((uid, label.to_owned()));
            i = i + 1;
        }
        TabsState { active_index: 0, tabs }
    }

    /// A selection is reported as it is, and the state is left alone.
    pub fn flow(&self, action: usize) -> (report: usize)
        ensures
            report == action,
    {
        action
    }

    /// The tab bar of `state`; a press of a tab sends its index on `link`.
    pub fn render(state: &TabsState, link: SyncLink) -> (r: TabBarYard)
        requires
            fits_i32(owned_tabs_width(state.tabs@, state.tabs@.len() as int)),
        ensures
            exists|items: Seq<TabItem>|
                owned_items_of(state.tabs@, items) && #[trigger] tabbar_ok(r, items, state.active_index, link, '_', 500, false),
    {
        let mut items: Vec<TabItem> = Vec::new();
        let mut i: usize = 0;
        while i < state.tabs.len()
            invariant
                i <= state.tabs@.len(),
                items@.len() == i,
                forall|k: int|
                    0 <= k < i ==> (#[trigger] items@[k]).spec_id() == state.tabs@[k].0 && items@[k].spec_label()
                        == state.tabs@[k].1@,
            decreases state.tabs@.len() - i,
        {
            let tab = &state.tabs[i];
            items.push(TabItem::new(tab.0, tab.1.as_str()));
            i = i + 1;
        }
        proof {
            lemma_owned_tabs_width(state.tabs@, items@, state.tabs@.len() as int);
        }
        let bar = TabBar::new(items, state.active_index, link);
        let r = tabbar(&bar);
        assert(tabbar_ok(r, bar.spec_items(), state.active_index, link, '_', 500, false));
        r
    }
}

/// The columns that the first `n` of a list of owned `(id, label)` tabs
/// take side by side.
pub open spec fn owned_tabs_width(tabs: Seq<(i32, String)>, n: int) -> int
    decreases n,
{
    if n <= 0 || n > tabs.len() {
        0
    } else {
        owned_tabs_width(tabs, n - 1) + tab_width(tabs[n - 1].1@)
    }
}

proof fn lemma_owned_tabs_width(tabs: Seq<(i32, String)>, items: Seq<TabItem>, n: int)
    requires
        owned_items_of(tabs, items),
        0 <= n <= tabs.len(),
    ensures
        widths_sum(items, n) == owned_tabs_width(tabs, n),
    decreases n,
{
    if n > 0 {
        lemma_owned_tabs_width(tabs, items, n - 1);
        assert(items[n - 1].spec_label() == tabs[n - 1].1@);
    }
}

proof fn lemma_widths_sum_nonnegative(items: Seq<TabItem>, a: int)
    requires
        0 <= a <= items.len(),
    ensures
        0 <= widths_sum(items, a),
    decreases a,
{
    if a > 0 {
        lemma_widths_sum_nonnegative(items, a - 1);
    }
}

proof fn lemma_widths_sum_monotone(items: Seq<TabItem>, a: int, b: int)
    requires
        0 <= a <= b <= items.len(),
    ensures
        0 <= widths_sum(items, a) <= widths_sum(items, b),
        a < b ==> widths_sum(items, a) + tab_width(items[a].spec_label()) <= widths_sum(items, b),
    decreases b - a,
{
    lemma_widths_sum_nonnegative(items, a);
    if a < b {
        lemma_widths_sum_monotone(items, a, b - 1);
    }
}

} // verus!
