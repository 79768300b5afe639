//! The scrolling model of a list of items of given heights: where each item
//! starts, which item holds the nexus, and which items a list region shows.

use crate::bounds::{fits_i32, min_int, Bounds, BoundsHold};
use crate::paint::{has_region, region_of};
use crate::screen::SpotStack;
use crate::focus::{Focus, FocusKeys, FocusMotion, FocusMotionFuture, FocusReply, FocusType, MotionKeys};
use crate::layout::{ended_at_depth, lemma_take_all, lemma_grew_transitive, multi_laid, LayoutContext, MultiLayout, Yard};
use crate::link::SyncLink;
use crate::yards::{nearer, same_extent};
use crate::nexus::{
    lemma_can_move_iff_move_succeeds, lemma_down_moves_to_next_item, lemma_prefix_sum_step,
    lemma_up_moves_to_previous_item, prefix_sum,
    Nexus,
};
use vstd::prelude::*;

verus! {

#[derive(Debug, Copy, Clone, PartialEq, Eq, Structural)]
pub enum ScrollAction {
    Up,
    Down,
}

/// The least of the first `n` heights, or `i32::MAX` when there are none.
pub open spec fn min_height(heights: Seq<i32>, n: int) -> int
    decreases n,
{
    if n <= 0 || heights.len() == 0 {
        i32::MAX as int
    } else if n > heights.len() {
        min_height(heights, heights.len() as int)
    } else {
        min_int(min_height(heights, n - 1), heights[n - 1] as int)
    }
}

/// Byte heights read as `i32` heights.
pub open spec fn widen(heights: Seq<u8>) -> Seq<i32> {
    Seq::new(heights.len(), |i: int| heights[i] as i32)
}

/// Heights are never negative, so list positions grow down the list.
pub proof fn lemma_prefix_sum_monotone(heights: Seq<i32>, a: int, b: int)
    requires
        0 <= a <= b <= heights.len(),
        forall|i: int| 0 <= i < heights.len() ==> heights[i] >= 0,
    ensures
        0 <= prefix_sum(heights, a) <= prefix_sum(heights, b),
    decreases b - a,
{
    if a < b {
        lemma_prefix_sum_step(heights, b - 1);
        lemma_prefix_sum_monotone(heights, a, b - 1);
    } else {
        lemma_prefix_sum_nonnegative(heights, a);
    }
}

proof fn lemma_prefix_sum_nonnegative(heights: Seq<i32>, a: int)
    requires
        0 <= a <= heights.len(),
        forall|i: int| 0 <= i < heights.len() ==> heights[i] >= 0,
    ensures
        0 <= prefix_sum(heights, a),
    decreases a,
{
    if a > 0 {
        lemma_prefix_sum_step(heights, a - 1);
        lemma_prefix_sum_nonnegative(heights, a - 1);
    }
}

/// An item that a list region shows, with the region it occupies.
#[derive(Debug, Copy, Clone, PartialEq, Eq, Structural)]
pub struct LayoutItem {
    pub index: usize,
    pub bounds: Bounds,
}

#[derive(Debug)]
pub struct ScrollModel {
    pub id: i32,
    pub item_heights: Vec<i32>,
    pub item_tops: Vec<i32>,
    pub min_item_height: i32,
    pub sum_heights: i32,
    pub nexus: Nexus,
    pub selected_index: usize,
}

impl ScrollModel {
    /// The model is consistent: each top is the sum of the heights above it,
    /// the sum and least height are those of all heights, heights are never
    /// negative and their sum fits an `i32`, and the nexus is anchored on one
    /// of the items.
    pub open spec fn wf(self) -> bool {
        let h = self.item_heights@;
        &&& self.item_tops@.len() == h.len()
        &&& forall|i: int| 0 <= i < h.len() ==> #[trigger] self.item_tops@[i] == prefix_sum(h, i)
        &&& forall|i: int| 0 <= i < h.len() ==> #[trigger] h[i] >= 0
        &&& self.sum_heights == prefix_sum(h, h.len() as int)
        &&& self.min_item_height == min_height(h, h.len() as int)
        &&& self.nexus.spec_max_index() == h.len()
        &&& self.nexus.anchored(h)
    }

    /// This model was built from `heights` for list `id` with `selected` selected.
    pub open spec fn built_from(self, id: i32, heights: Seq<u8>, selected: usize) -> bool {
        &&& self.wf()
        &&& self.id == id
        &&& self.item_heights@ == widen(heights)
        &&& self.selected_index == selected
        &&& self.nexus == (Nexus::Up { first_pos: 0, item_index: 0, max_index: heights.len() as usize })
    }

    /// This model equals `other` except for its nexus.
    pub open spec fn same_but_nexus(self, other: ScrollModel, nexus: Nexus) -> bool {
        &&& self.id == other.id
        &&& self.item_heights@ == other.item_heights@
        &&& self.item_tops@ == other.item_tops@
        &&& self.min_item_height == other.min_item_height
        &&& self.sum_heights == other.sum_heights
        &&& self.selected_index == other.selected_index
        &&& self.nexus == nexus
    }

    /// The nexus after `action`, or `None` where it cannot move.
    pub open spec fn spec_moved(self, action: ScrollAction) -> Option<Nexus> {
        match action {
            ScrollAction::Up => self.nexus.spec_up(self.item_heights@),
            ScrollAction::Down => self.nexus.spec_down(self.item_heights@),
        }
    }

    /// The item that `action` moves onto has a positive height.
    pub open spec fn move_ok(self, action: ScrollAction) -> bool {
        let h = self.item_heights@;
        let i = self.nexus.spec_item_index();
        match action {
            ScrollAction::Up => i > 0 ==> h[i - 1] > 0,
            ScrollAction::Down => i + 1 < h.len() ==> h[i + 1] > 0,
        }
    }

    /// A list of `count` items, each `height` rows tall.
    pub fn new_count_height(id: i32, count: usize, height: u8, selected_index: usize) -> (r: ScrollModel)
        requires
            count * height <= i32::MAX,
        ensures
            r.built_from(id, Seq::new(count as nat, |i: int| height), selected_index),
    {
        let mut heights: Vec<u8> = Vec::new();
        let mut i: usize = 0;
        while i < count
            invariant
                i <= count,
                heights@ == Seq::new(i as nat, |k: int| height),
            decreases count - i,
        {
            heights.push(height);
            i = i + 1;
        }
        proof {
            let h = widen(heights@);
            lemma_prefix_of_constant(h, height as int, count as int);
            assert(count * height <= i32::MAX);
        }
        ScrollModel::new(id, heights, selected_index)
    }

    pub fn new(id: i32, item_heights: Vec<u8>, selected_index: usize) -> (r: ScrollModel)
        requires
            prefix_sum(widen(item_heights@), item_heights@.len() as int) <= i32::MAX,
        ensures
            r.built_from(id, item_heights@, selected_index),
    {
        let ghost wide = widen(item_heights@);
        let mut heights: Vec<i32> = Vec::new();
        let mut item_tops: Vec<i32> = Vec::new();
        let mut min_item_height: i32 = i32::MAX;
        let mut sum_heights: i32 = 0;
        let mut i: usize = 0;
        while i < item_heights.len()
            invariant
                wide == widen(item_heights@),
                prefix_sum(wide, wide.len() as int) <= i32::MAX,
                i <= item_heights.len(),
                heights@ == wide.take(i as int),
                item_tops@.len() == i,
                forall|k: int| 0 <= k < i ==> #[trigger] item_tops@[k] == prefix_sum(wide, k),
                sum_heights == prefix_sum(wide, i as int),
                min_item_height == min_height(wide, i as int),
            decreases item_heights.len() - i,
        {
            let item_height: i32 = item_heights[i] as i32;
            proof {
                lemma_prefix_sum_step(wide, i as int);
                lemma_prefix_sum_monotone(wide, i + 1, wide.len() as int);
            }
            heights.push(item_height);
            item_tops.push(sum_heights);
            sum_heights = sum_heights + item_height;
            if item_height < min_item_height {
                min_item_height = item_height;
            }
            i = i + 1;
            proof {
                assert(heights@ == wide.take(i as int));
            }
        }
        proof {
            assert(heights@ == wide);
            assert(prefix_sum(heights@, 0) == 0);
        }
        let nexus = Nexus::Up { first_pos: 0, item_index: 0, max_index: heights.len() };
        ScrollModel { id, item_heights: heights, item_tops, min_item_height, sum_heights, nexus, selected_index }
    }

    pub fn item_count(&self) -> (r: usize)
        ensures
            r == self.item_heights@.len(),
    {
        self.item_heights.len()
    }

    pub fn selected_index(&self) -> (r: usize)
        ensures
            r == self.selected_index,
    {
        self.selected_index
    }

    /// Moves the nexus one item up or down; `None` when it is already at
    /// that end of the list. The item moved onto must have a positive
    /// height, and the rows it reaches must fit an `i32`. A consistent
    /// model stays consistent.
    pub fn update(&self, action: ScrollAction) -> (r: Option<ScrollModel>)
        requires
            action == ScrollAction::Up ==> self.nexus.up_ok(self.item_heights@),
            action == ScrollAction::Down ==> self.nexus.down_ok(self.item_heights@),
        ensures
            match self.spec_moved(action) {
                None => r is None,
                Some(n) => r matches Some(m) && m.same_but_nexus(*self, n),
            },
            self.wf() ==> (r matches Some(m) ==> m.wf()),
    {
        proof {
            if self.wf() {
                self.lemma_moved_anchored(action);
            }
        }
        match action {
            ScrollAction::Up => match self.nexus.up(&self.item_heights) {
                None => None,
                Some(n) => Some(self.with_nexus(n)),
            },
            ScrollAction::Down => match self.nexus.down(&self.item_heights) {
                None => None,
                Some(n) => Some(self.with_nexus(n)),
            },
        }
    }

    /// A consistent model can always move as far as the machine is
    /// concerned, and the moved nexus is again anchored on an item.
    pub proof fn lemma_moves_are_ok(self, action: ScrollAction)
        requires
            self.wf(),
            self.move_ok(action),
        ensures
            action == ScrollAction::Up ==> self.nexus.up_ok(self.item_heights@),
            action == ScrollAction::Down ==> self.nexus.down_ok(self.item_heights@),
            self.spec_moved(action) matches Some(n) ==> n.anchored(self.item_heights@)
                && n.spec_max_index() == self.item_heights@.len(),
    {
        let h = self.item_heights@;
        let len = h.len() as int;
        let i = self.nexus.spec_item_index() as int;
        assert(h.len() <= usize::MAX);
        lemma_prefix_sum_monotone(h, 0, len);
        if i + 1 < len {
            lemma_prefix_sum_step(h, i);
            lemma_prefix_sum_step(h, i + 1);
            lemma_prefix_sum_monotone(h, i + 2, len);
            lemma_prefix_sum_monotone(h, i, i + 2);
        }
        if 0 < i && i <= len {
            lemma_prefix_sum_step(h, i - 1);
            lemma_prefix_sum_monotone(h, i - 1, len);
            lemma_prefix_sum_monotone(h, i, len);
            if i < len {
                lemma_prefix_sum_step(h, i);
            }
        }
        match action {
            ScrollAction::Up => {
                lemma_up_moves_to_previous_item(self.nexus, h);
            },
            ScrollAction::Down => {
                lemma_down_moves_to_next_item(self.nexus, h);
            },
        }
    }

    /// A consistent model that moves stays anchored on an item.
    proof fn lemma_moved_anchored(self, action: ScrollAction)
        requires
            self.wf(),
            action == ScrollAction::Up ==> self.nexus.up_ok(self.item_heights@),
            action == ScrollAction::Down ==> self.nexus.down_ok(self.item_heights@),
        ensures
            self.spec_moved(action) matches Some(n) ==> n.anchored(self.item_heights@)
                && n.spec_max_index() == self.item_heights@.len(),
    {
        assert(self.item_heights@.len() <= usize::MAX);
        match action {
            ScrollAction::Up => {
                lemma_up_moves_to_previous_item(self.nexus, self.item_heights@);
            },
            ScrollAction::Down => {
                lemma_down_moves_to_next_item(self.nexus, self.item_heights@);
            },
        }
    }

    pub fn with_nexus(&self, nexus: Nexus) -> (r: ScrollModel)
        ensures
            r.same_but_nexus(*self, nexus),
    {
        ScrollModel {
            id: self.id,
            item_heights: self.item_heights.clone(),
            item_tops: self.item_tops.clone(),
            min_item_height: self.min_item_height,
            sum_heights: self.sum_heights,
            nexus,
            selected_index: self.selected_index,
        }
    }

    pub fn with_selected_index(&self, index: usize) -> (r: ScrollModel)
        ensures
            r.same_but_nexus(ScrollModel { selected_index: index, ..*self }, self.nexus),
    {
        ScrollModel {
            id: self.id,
            item_heights: self.item_heights.clone(),
            item_tops: self.item_tops.clone(),
            min_item_height: self.min_item_height,
            sum_heights: self.sum_heights,
            nexus: self.nexus,
            selected_index: index,
        }
    }
}


impl ScrollModel {
    /// The screen row at which the nexus item's anchor row is drawn in `bounds`.
    pub open spec fn spec_list_pivot_row(self, bounds: Bounds) -> int {
        self.nexus.spec_pivot_row(
            bounds.spec_height(),
            bounds.top as int,
            self.sum_heights as int,
            self.min_item_height as int,
            self.item_tops@,
        )
    }

    /// The region of item `i` in `bounds`.
    pub open spec fn spec_item_region(self, bounds: Bounds, i: int) -> Bounds {
        self.nexus.spec_item_bounds(
            i,
            bounds,
            self.spec_list_pivot_row(bounds),
            self.nexus.spec_pivot_pos() as int,
            self.item_tops@,
            self.item_heights@,
        )
    }

    /// The items from `i` on that `bounds` shows, scanning down the list:
    /// items wholly above the region are passed over, items that meet the
    /// region are kept, and the scan stops at the first item that reaches
    /// past the region's bottom (kept when it still meets the region).
    pub open spec fn spec_visible_from(self, bounds: Bounds, i: int) -> Seq<LayoutItem>
        decreases self.item_heights@.len() - i,
    {
        if i < 0 || i >= self.item_heights@.len() {
            Seq::empty()
        } else {
            let b = self.spec_item_region(bounds, i);
            let item = LayoutItem { index: i as usize, bounds: b };
            if b.bottom < bounds.top {
                self.spec_visible_from(bounds, i + 1)
            } else if b.top < bounds.top {
                if b.bottom > bounds.bottom {
                    seq![item]
                } else {
                    seq![item] + self.spec_visible_from(bounds, i + 1)
                }
            } else if b.bottom <= bounds.bottom {
                seq![item] + self.spec_visible_from(bounds, i + 1)
            } else if b.top < bounds.bottom {
                seq![item]
            } else {
                Seq::empty()
            }
        }
    }

    /// `layout_items` neither panics nor overflows.
    pub open spec fn layout_items_ok(self, bounds: Bounds) -> bool {
        &&& self.item_tops@.len() == self.item_heights@.len()
        &&& fits_i32(bounds.spec_height())
        &&& self.nexus.pivot_row_ok(
            bounds.spec_height(),
            bounds.top as int,
            self.sum_heights as int,
            self.min_item_height as int,
            self.item_tops@,
        )
        &&& forall|i: int|
            0 <= i < self.item_heights@.len() ==> #[trigger] self.nexus.item_bounds_ok(
                i,
                bounds,
                self.spec_list_pivot_row(bounds),
                self.nexus.spec_pivot_pos() as int,
                self.item_tops@,
                self.item_heights@,
            )
    }

    /// Whether the items of a list drawn in `bounds` can be laid out
    /// without a panic or an overflow (see `layout_items_ok`).
    pub fn layout_fits(&self, bounds: &Bounds) -> (r: bool)
        ensures
            r == self.layout_items_ok(*bounds),
    {
        let len = self.item_heights.len();
        if self.item_tops.len() != len {
            return false;
        }
        let height64: i64 = bounds.bottom as i64 - bounds.top as i64;
        if !fits64(height64) {
            return false;
        }
        let bounds_height: i32 = height64 as i32;
        let list_height = self.sum_heights;
        let item_index = self.nexus.item_index();
        let pivot_pos = self.nexus.pivot_pos();
        let shape_ok = if list_height <= bounds_height {
            match self.nexus {
                Nexus::Up { .. } => item_index < len,
                Nexus::Down { .. } => {
                    item_index < len && fits64(list_height as i64 - 1) && (item_index + 1 >= len || fits64(
                        self.item_tops[item_index + 1] as i64 - 1,
                    ))
                },
            }
        } else {
            list_height > 0 && pivot_pos < i32::MAX && match self.nexus {
                Nexus::Up { max_index, .. } => item_index < max_index,
                Nexus::Down { .. } => true,
            }
        };
        if !shape_ok {
            return false;
        }
        let pivot_row64 = self.nexus.pivot_row_wide(
            bounds_height,
            bounds.top,
            list_height,
            self.min_item_height,
            &self.item_tops,
        );
        if !fits64(pivot_row64) {
            return false;
        }
        let pivot_row: i32 = pivot_row64 as i32;
        proof {
            assert(pivot_row == self.spec_list_pivot_row(*bounds));
        }
        let mut i: usize = 0;
        while i < len
            invariant
                len == self.item_heights@.len(),
                len == self.item_tops@.len(),
                pivot_row == self.spec_list_pivot_row(*bounds),
                pivot_pos == self.nexus.spec_pivot_pos(),
                i <= len,
                forall|k: int|
                    0 <= k < i ==> #[trigger] self.nexus.item_bounds_ok(
                        k,
                        *bounds,
                        self.spec_list_pivot_row(*bounds),
                        self.nexus.spec_pivot_pos() as int,
                        self.item_tops@,
                        self.item_heights@,
                    ),
            decreases len - i,
        {
            let top: i64 = self.item_tops[i] as i64;
            let height: i64 = self.item_heights[i] as i64;
            let ok = match self.nexus {
                Nexus::Up { .. } => {
                    let from_pivot: i64 = top - pivot_pos as i64;
                    let top_row: i64 = pivot_row as i64 + from_pivot;
                    fits64(from_pivot) && fits64(top_row) && fits64(top_row - bounds.top as i64) && fits64(
                        top_row + height,
                    )
                },
                Nexus::Down { .. } => {
                    let bottom_pos: i64 = top + height;
                    let from_pivot: i64 = bottom_pos - pivot_pos as i64;
                    let bottom_row: i64 = pivot_row as i64 + from_pivot;
                    fits64(bottom_pos) && fits64(from_pivot) && fits64(bottom_row) && fits64(
                        bounds.bottom as i64 - bottom_row,
                    ) && fits64(bottom_row - height)
                },
            };
            if !ok {
                proof {
                    assert(!self.nexus.item_bounds_ok(
                        i as int,
                        *bounds,
                        self.spec_list_pivot_row(*bounds),
                        self.nexus.spec_pivot_pos() as int,
                        self.item_tops@,
                        self.item_heights@,
                    ));
                }
                return false;
            }
            i = i + 1;
        }
        true
    }

    /// The items that a list drawn in `bounds` shows, top to bottom, with
    /// their regions.
    pub fn layout_items(&self, bounds: &Bounds) -> (r: Vec<LayoutItem>)
        requires
            self.layout_items_ok(*bounds),
        ensures
            r@ == self.spec_visible_from(*bounds, 0),
    {
        let pivot_row = self.nexus.pivot_row(
            bounds.height(),
            bounds.top,
            self.sum_heights,
            self.min_item_height,
            &self.item_tops,
        );
        let pivot_pos = self.nexus.pivot_pos();
        let mut layout_items: Vec<LayoutItem> = Vec::new();
        let mut index: usize = 0;
        let mut scanning = true;
        let len = self.item_heights.len();
        while scanning && index < len
            invariant
                self.layout_items_ok(*bounds),
                pivot_row == self.spec_list_pivot_row(*bounds),
                pivot_pos == self.nexus.spec_pivot_pos(),
                len == self.item_heights@.len(),
                index <= len,
                scanning ==> layout_items@ + self.spec_visible_from(*bounds, index as int)
                    == self.spec_visible_from(*bounds, 0),
                !scanning ==> layout_items@ == self.spec_visible_from(*bounds, 0),
            decreases len - index,
        {
            let item_bounds = self.nexus.item_bounds(
                index,
                bounds,
                pivot_row,
                pivot_pos,
                &self.item_tops,
                &self.item_heights,
            );
            let ghost before = layout_items@;
            let item = LayoutItem { index, bounds: item_bounds };
            let (next, keep) = if item_bounds.bottom < bounds.top {
                (true, false)
            } else if item_bounds.top < bounds.top {
                if item_bounds.bottom > bounds.bottom {
                    (false, true)
                } else {
                    (true, true)
                }
            } else if item_bounds.bottom <= bounds.bottom {
                (true, true)
            } else if item_bounds.top < bounds.bottom {
                (false, true)
            } else {
                (false, false)
            };
            if keep {
                layout_items.push(item);
            }
            proof {
                let rest = self.spec_visible_from(*bounds, index + 1);
                if keep && next {
                    assert(before + self.spec_visible_from(*bounds, index as int) =~= layout_items@ + rest);
                } else if keep {
                    assert(before + self.spec_visible_from(*bounds, index as int) =~= layout_items@);
                } else if next {
                    assert(before + self.spec_visible_from(*bounds, index as int) =~= layout_items@ + rest);
                } else {
                    assert(before + self.spec_visible_from(*bounds, index as int) =~= layout_items@);
                }
            }
            scanning = next;
            index = index + 1;
        }
        proof {
            if scanning {
                assert(layout_items@ + Seq::<LayoutItem>::empty() =~= layout_items@);
            }
        }
        layout_items
    }
}


impl ScrollModel {
    /// What a list that holds the focus does with an arrow key: up and down
    /// scroll the list while its nexus can move that way (and the key goes
    /// no further); otherwise focus may leave the list.
    /// What a list that holds the focus does with an arrow key (see
    /// [`Self::focus_motion`]).
    pub open spec fn spec_focus_motion(self, motion: FocusMotion) -> (FocusMotionFuture, Option<ScrollAction>) {
        match motion {
            FocusMotion::Up => if self.nexus.spec_item_index() > 0 {
                (FocusMotionFuture::Skip, Some(ScrollAction::Up))
            } else {
                (FocusMotionFuture::Default, None)
            },
            FocusMotion::Down => if self.nexus.spec_item_index() + 1 < self.nexus.spec_max_index() {
                (FocusMotionFuture::Skip, Some(ScrollAction::Down))
            } else {
                (FocusMotionFuture::Default, None)
            },
            _ => (FocusMotionFuture::Default, None),
        }
    }

    pub fn focus_motion(&self, motion: FocusMotion) -> (r: (FocusMotionFuture, Option<ScrollAction>))
        requires
            self.nexus.spec_item_index() < usize::MAX,
        ensures
            r == self.spec_focus_motion(motion),
    {
        let can_up = self.nexus.can_up();
        let can_down = self.nexus.can_down();
        match motion {
            FocusMotion::Left | FocusMotion::Right => (FocusMotionFuture::Default, None),
            FocusMotion::Up => if can_up {
                (FocusMotionFuture::Skip, Some(ScrollAction::Up))
            } else {
                (FocusMotionFuture::Default, None)
            },
            FocusMotion::Down => if can_down {
                (FocusMotionFuture::Skip, Some(ScrollAction::Down))
            } else {
                (FocusMotionFuture::Default, None)
            },
        }
    }

    /// The focus that a list in `bounds` offers when `sub_focus` is the
    /// focus of the item under its nexus: it edits when that item edits,
    /// and is a composite submit region otherwise; up and down scroll the
    /// list on `link` while its nexus can move that way, and actions go to
    /// the item's own focus.
    pub open spec fn spec_focus(self, bounds: Bounds, sub_focus: Option<Focus>, link: SyncLink) -> Focus {
        let keys = MotionKeys::Scroll {
            link,
            item_index: self.nexus.spec_item_index(),
            max_index: self.nexus.spec_max_index(),
        };
        Focus {
            yard_id: self.id,
            focus_type: if sub_focus matches Some(f) && f.focus_type is Edit {
                FocusType::Edit(keys)
            } else {
                FocusType::CompositeSubmit(keys)
            },
            bounds,
            priority: 0,
            action_block: match sub_focus {
                Some(f) => f.action_block,
                None => FocusKeys::Ignore,
            },
        }
    }

    /// The focus that a list in `bounds` offers (see [`Self::spec_focus`]).
    pub fn create_focus(&self, bounds: &Bounds, sub_focus: Option<Focus>, link: SyncLink) -> (r: Focus)
        ensures
            r == self.spec_focus(*bounds, sub_focus, link),
    {
        let keys = MotionKeys::Scroll {
            link,
            item_index: self.nexus.item_index(),
            max_index: self.nexus.max_index(),
        };
        let focus_type = match sub_focus {
            None => FocusType::CompositeSubmit(keys),
            Some(focus) => match focus.focus_type {
                FocusType::Submit => FocusType::CompositeSubmit(keys),
                FocusType::Edit(_) => FocusType::Edit(keys),
                FocusType::CompositeSubmit(_) => FocusType::CompositeSubmit(keys),
            },
        };
        let action_block = match sub_focus {
            Some(focus) => focus.action_block,
            None => FocusKeys::Ignore,
        };
        Focus { yard_id: self.id, focus_type, bounds: *bounds, priority: 0, action_block }
    }

    /// The focus id to draw each visible item with: when the list holds the
    /// focus (`focus_id` is its id) the item under the nexus is drawn with
    /// the focus of its own focused region, if it has one; `None` when no
    /// item is visible.
    pub fn render_items(&self, bounds: &Bounds, focus_id: i32, sub_focus_id: Option<i32>) -> (r: Option<
        Vec<(usize, Option<i32>)>,
    >)
        requires
            self.layout_items_ok(*bounds),
        ensures
            ({
                let items = self.spec_visible_from(*bounds, 0);
                if items.len() == 0 {
                    r is None
                } else {
                    r matches Some(v) && v@.len() == items.len() && forall|k: int|
                        0 <= k < items.len() ==> #[trigger] v@[k] == (
                            items[k].index,
                            if focus_id == self.id && items[k].index == self.nexus.spec_item_index()
                                && sub_focus_id is Some {
                                sub_focus_id
                            } else {
                                None
                            },
                        )
                }
            }),
    {
        let items = self.layout_items(bounds);
        let focused = focus_id == self.id;
        let nexus_index = self.nexus.item_index();
        let mut more: Vec<(usize, Option<i32>)> = Vec::new();
        let mut i: usize = 0;
        while i < items.len()
            invariant
                i <= items@.len(),
                focused == (focus_id == self.id),
                nexus_index == self.nexus.spec_item_index(),
                more@.len() == i,
                forall|k: int|
                    0 <= k < i ==> #[trigger] more@[k] == (
                        items@[k].index,
                        if focused && items@[k].index == nexus_index && sub_focus_id is Some {
                            sub_focus_id
                        } else {
                            None
                        },
                    ),
            decreases items@.len() - i,
        {
            let item = items[i];
            let item_focus = if focused && item.index == nexus_index && sub_focus_id.is_some() {
                sub_focus_id
            } else {
                None
            };
            more.push((item.index, item_focus));
            i = i + 1;
        }
        if more.len() == 0 {
            None
        } else {
            Some(more)
        }
    }
}

/// The heights of a list of equal items sum to the count times the height.
proof fn lemma_prefix_of_constant(heights: Seq<i32>, height: int, n: int)
    requires
        0 <= n <= heights.len(),
        forall|i: int| 0 <= i < heights.len() ==> heights[i] == height,
    ensures
        prefix_sum(heights, n) == n * height,
    decreases n,
{
    if n > 0 {
        lemma_prefix_sum_step(heights, n - 1);
        lemma_prefix_of_constant(heights, height, n - 1);
        assert(n * height == (n - 1) * height + height) by (nonlinear_arith);
        assert(heights[n - 1] == height);
    } else {
        assert(n * height == 0) by (nonlinear_arith)
            requires
                n == 0,
        ;
    }
}

/// Whether `v` fits an `i32`.
fn fits64(v: i64) -> (r: bool)
    ensures
        r == fits_i32(v as int),
{
    i32::MIN as i64 <= v && v <= i32::MAX as i64
}

/// Regions and lists small enough to lay out without overflow: the list is
/// not empty, its rows number no more than `2^26`, and the region is not
/// upside down and reaches no more than `2^26` rows above or below the
/// origin.
pub open spec fn modest(bounds: Bounds, item_count: int, sum_heights: int) -> bool {
    &&& item_count > 0
    &&& sum_heights <= 0x400_0000
    &&& -0x400_0000 <= bounds.top <= 0x400_0000
    &&& -0x400_0000 <= bounds.bottom <= 0x400_0000
    &&& bounds.top <= bounds.bottom
}

proof fn lemma_min_height_nonnegative(heights: Seq<i32>, n: int)
    requires
        forall|i: int| 0 <= i < heights.len() ==> heights[i] >= 0,
    ensures
        min_height(heights, n) >= 0,
    decreases n,
{
    if n > 0 && heights.len() > 0 {
        if n > heights.len() {
            lemma_min_height_nonnegative(heights, heights.len() as int);
        } else {
            lemma_min_height_nonnegative(heights, n - 1);
        }
    }
}

/// The proportional row of the pivot lies within about twice the region's
/// height of its top.
proof fn lemma_rows_from_top(p: int, bh: int, lh: int)
    requires
        -1 <= p <= lh,
        lh > bh,
        lh >= 1,
    ensures
        -2 * (if bh < 0 { -bh } else { bh }) - 2 <= ((p + 1) * bh * 1_000_000 - lh) / (lh * 1_000_000) <= 2 * (if bh
            < 0 {
            -bh
        } else {
            bh
        }) + 2,
{
    let a = (p + 1) * bh;
    let n = a * 1_000_000 - lh;
    let d = lh * 1_000_000;
    assert(d >= 1_000_000);
    if bh >= 0 {
        assert(0 <= a <= (lh + 1) * bh) by (nonlinear_arith)
            requires a == (p + 1) * bh, 0 <= p + 1 <= lh + 1, bh >= 0;
        assert((lh + 1) * bh <= 2 * lh * bh) by (nonlinear_arith)
            requires lh >= 1, bh >= 0;
        assert(n <= (2 * bh + 2) * d) by (nonlinear_arith)
            requires n == a * 1_000_000 - lh, d == lh * 1_000_000, a <= 2 * lh * bh, lh >= 1, bh >= 0;
        assert(n / d <= 2 * bh + 2) by (nonlinear_arith)
            requires n <= (2 * bh + 2) * d, d >= 1;
        assert(n >= -d) by (nonlinear_arith)
            requires n == a * 1_000_000 - lh, d == lh * 1_000_000, a >= 0, lh >= 1;
        assert(n / d >= -1) by (nonlinear_arith)
            requires n >= -d, d >= 1;
    } else {
        assert((lh + 1) * bh <= a <= 0) by (nonlinear_arith)
            requires a == (p + 1) * bh, 0 <= p + 1 <= lh + 1, bh < 0;
        assert(2 * lh * bh <= (lh + 1) * bh) by (nonlinear_arith)
            requires lh >= 1, bh < 0;
        assert(n >= (2 * bh - 2) * d) by (nonlinear_arith)
            requires n == a * 1_000_000 - lh, d == lh * 1_000_000, a >= 2 * lh * bh, lh >= 1, bh < 0;
        assert(n / d >= 2 * bh - 2) by (nonlinear_arith)
            requires n >= (2 * bh - 2) * d, d >= 1;
        assert(n < 0) by (nonlinear_arith)
            requires n == a * 1_000_000 - lh, a <= 0, lh >= 1;
        assert(n / d <= 0) by (nonlinear_arith)
            requires n < 0, d >= 1;
    }
}

impl ScrollModel {
    /// A consistent model laid out in a modest region neither panics nor
    /// overflows.
    pub proof fn lemma_modest_layout_ok(self, bounds: Bounds)
        requires
            self.wf(),
            modest(bounds, self.item_heights@.len() as int, self.sum_heights as int),
        ensures
            self.layout_items_ok(bounds),
    {
        let h = self.item_heights@;
        let n = h.len() as int;
        let tops = self.item_tops@;
        let lh = self.sum_heights as int;
        let bh = bounds.spec_height();
        let top = bounds.top as int;
        let nexus = self.nexus;
        let p = nexus.spec_pivot_pos() as int;
        let mh = self.min_item_height as int;
        lemma_min_height_nonnegative(h, n);
        assert forall|i: int| 0 <= i < n implies 0 <= #[trigger] tops[i] && tops[i] + h[i] <= lh by {
            lemma_prefix_sum_step(h, i);
            lemma_prefix_sum_monotone(h, i, i + 1);
            lemma_prefix_sum_monotone(h, i + 1, n);
        }
        lemma_prefix_sum_monotone(h, 0, n);
        let item = nexus.spec_item_index() as int;
        match nexus {
            Nexus::Up { .. } => {
                lemma_prefix_sum_monotone(h, item, n);
            },
            Nexus::Down { .. } => {
                lemma_prefix_sum_monotone(h, item + 1, n);
            },
        }
        assert(-1 <= p <= lh);
        let abh = if bh < 0 { -bh } else { bh };
        let pr = self.spec_list_pivot_row(bounds);
        if lh > bh {
            lemma_rows_from_top(p, bh, lh);
        } else {
            match nexus {
                Nexus::Up { .. } => {
                    assert(0 <= tops[item] <= lh);
                },
                Nexus::Down { .. } => {
                    if item + 1 < n {
                        assert(0 <= tops[item + 1] <= lh);
                    }
                },
            }
        }
        assert(top - 2 * abh - lh - 2 <= pr <= top + 2 * abh + lh + 2);
        assert(fits_i32(bh));
        assert(nexus.pivot_row_ok(bh, top, lh, mh, tops));
        assert forall|i: int| 0 <= i < n implies #[trigger] nexus.item_bounds_ok(
            i,
            bounds,
            pr,
            p,
            tops,
            h,
        ) by {
            assert(0 <= tops[i] && tops[i] + h[i] <= lh);
        }
    }
}

impl ScrollModel {
    /// Every item shown from `i` on is an item of the list at or after `i`.
    pub proof fn lemma_visible_indices(self, bounds: Bounds, i: int)
        requires
            0 <= i,
            self.item_heights@.len() <= usize::MAX,
        ensures
            forall|k: int|
                0 <= k < self.spec_visible_from(bounds, i).len() ==> i <= (#[trigger] self.spec_visible_from(
                    bounds,
                    i,
                )[k]).index < self.item_heights@.len(),
        decreases self.item_heights@.len() - i,
    {
        if i < self.item_heights@.len() {
            self.lemma_visible_indices(bounds, i + 1);
            let rest = self.spec_visible_from(bounds, i + 1);
            let all = self.spec_visible_from(bounds, i);
            let b = self.spec_item_region(bounds, i);
            let item = LayoutItem { index: i as usize, bounds: b };
            assert forall|k: int| 0 <= k < all.len() implies i <= (#[trigger] all[k]).index
                < self.item_heights@.len() by {
                if b.bottom < bounds.top {
                    assert(all == rest);
                } else if (b.top < bounds.top && b.bottom > bounds.bottom) || (b.top >= bounds.top && b.bottom
                    > bounds.bottom && b.top < bounds.bottom) {
                    assert(all == seq![item]);
                } else if b.top >= bounds.top && b.bottom > bounds.bottom {
                    assert(all.len() == 0);
                } else {
                    assert(all == seq![item] + rest);
                    if k > 0 {
                        assert(all[k] == rest[k - 1]);
                    }
                }
            }
        }
    }

    /// The items from `i` on whose regions meet `bounds`, in order: those
    /// that end no higher than its top row and start above its bottom.
    pub open spec fn spec_meeting_from(self, bounds: Bounds, i: int) -> Seq<LayoutItem>
        decreases self.item_heights@.len() - i,
    {
        if i < 0 || i >= self.item_heights@.len() {
            Seq::empty()
        } else {
            let b = self.spec_item_region(bounds, i);
            let rest = self.spec_meeting_from(bounds, i + 1);
            if b.bottom >= bounds.top && b.top < bounds.bottom {
                seq![LayoutItem { index: i as usize, bounds: b }] + rest
            } else {
                rest
            }
        }
    }

    /// In a consistent list of items of positive height, each item's
    /// region starts where the one before it ends, and is at least a row
    /// tall.
    proof fn lemma_regions_adjacent(self, bounds: Bounds, i: int)
        requires
            self.wf(),
            forall|k: int| 0 <= k < self.item_heights@.len() ==> #[trigger] self.item_heights@[k] > 0,
            self.layout_items_ok(bounds),
            0 <= i < self.item_heights@.len(),
        ensures
            self.spec_item_region(bounds, i).top < self.spec_item_region(bounds, i).bottom,
            i + 1 < self.item_heights@.len() ==> self.spec_item_region(bounds, i + 1).top == self.spec_item_region(
                bounds,
                i,
            ).bottom,
    {
        let h = self.item_heights@;
        let pr = self.spec_list_pivot_row(bounds);
        let pp = self.nexus.spec_pivot_pos() as int;
        assert(self.nexus.item_bounds_ok(i, bounds, pr, pp, self.item_tops@, h));
        assert(h[i] > 0);
        if i + 1 < h.len() {
            assert(self.nexus.item_bounds_ok(i + 1, bounds, pr, pp, self.item_tops@, h));
            assert(h[i + 1] > 0);
            lemma_prefix_sum_step(h, i);
            assert(self.item_tops@[i + 1] == self.item_tops@[i] + h[i]);
        }
    }

    /// No item from `i` on meets `bounds` once item `i` starts at or below
    /// its bottom.
    proof fn lemma_none_meet_below(self, bounds: Bounds, i: int)
        requires
            self.wf(),
            forall|k: int| 0 <= k < self.item_heights@.len() ==> #[trigger] self.item_heights@[k] > 0,
            self.layout_items_ok(bounds),
            0 <= i,
            i < self.item_heights@.len() ==> self.spec_item_region(bounds, i).top >= bounds.bottom,
        ensures
            self.spec_meeting_from(bounds, i) == Seq::<LayoutItem>::empty(),
        decreases self.item_heights@.len() - i,
    {
        if i < self.item_heights@.len() {
            self.lemma_regions_adjacent(bounds, i);
            self.lemma_none_meet_below(bounds, i + 1);
        }
    }

    /// In a consistent list of items of positive height, the items a list
    /// region shows are exactly those whose regions meet it, in order.
    pub proof fn lemma_visible_are_meeting(self, bounds: Bounds, i: int)
        requires
            self.wf(),
            forall|k: int| 0 <= k < self.item_heights@.len() ==> #[trigger] self.item_heights@[k] > 0,
            self.layout_items_ok(bounds),
            bounds.top <= bounds.bottom,
            0 <= i,
        ensures
            self.spec_visible_from(bounds, i) == self.spec_meeting_from(bounds, i),
        decreases self.item_heights@.len() - i,
    {
        if i < self.item_heights@.len() {
            self.lemma_regions_adjacent(bounds, i);
            self.lemma_visible_are_meeting(bounds, i + 1);
            let b = self.spec_item_region(bounds, i);
            if b.bottom > bounds.bottom {
                self.lemma_none_meet_below(bounds, i + 1);
            }
            if b.top >= bounds.bottom {
                self.lemma_none_meet_below(bounds, i);
            }
        }
    }
}

/// A scrolling list of yards: the yards that its region shows, each in its
/// item's region with its foci caught, and one focus for the whole list
/// that speaks for the item under the nexus.
#[derive(Debug)]
pub struct ListYard<Y> {
    scroll: ScrollModel,
    yards: Vec<Y>,
    scroll_link: SyncLink,
}

impl<Y> ListYard<Y> {
    #[verifier::type_invariant]
    spec fn consistent(self) -> bool {
        self.yards@.len() == self.scroll.item_heights@.len()
    }

    pub closed spec fn spec_scroll(self) -> ScrollModel {
        self.scroll
    }

    pub closed spec fn spec_yards(self) -> Seq<Y> {
        self.yards@
    }

    pub closed spec fn spec_scroll_link(self) -> SyncLink {
        self.scroll_link
    }

    pub fn scroll(&self) -> (r: &ScrollModel)
        ensures
            *r == self.spec_scroll(),
    {
        &self.scroll
    }

    pub fn yards(&self) -> (r: &Vec<Y>)
        ensures
            r@ == self.spec_yards(),
    {
        &self.yards
    }
}

/// A list of `yards` scrolled as `scroll` says; arrow keys that scroll it
/// are sent on `scroll_link`.
pub fn list<Y: Yard>(yards: Vec<Y>, scroll: ScrollModel, scroll_link: SyncLink) -> (r: ListYard<Y>)
    requires
        scroll.item_heights@.len() == yards@.len(),
    ensures
        r.spec_scroll() == scroll,
        r.spec_yards() == yards@,
        r.spec_scroll_link() == scroll_link,
{
    ListYard { scroll, yards, scroll_link }
}

/// Cell (`row`, `col`) after the yards of the first `k` of the `shown`
/// items paint into `s` in turn.
pub open spec fn shown_painted<Y: Yard>(
    yards: Seq<Y>,
    shown: Seq<LayoutItem>,
    k: int,
    hold: BoundsHold,
    focus_id: i32,
    row: int,
    col: int,
    s: SpotStack,
) -> SpotStack
    decreases k,
{
    if k <= 0 {
        s
    } else {
        yards[shown[k - 1].index as int].painted(
            hold,
            focus_id,
            row,
            col,
            shown_painted(yards, shown, k - 1, hold, focus_id, row, col, s),
        )
    }
}

/// The focus a list offers after its first `k` shown items were laid out,
/// the `m`-th catching `caught[m]`: the one for the last of them under the
/// nexus, if any.
pub open spec fn list_focus_after(
    scroll: ScrollModel,
    bounds: Bounds,
    link: SyncLink,
    shown: Seq<LayoutItem>,
    caught: Seq<Option<Focus>>,
    k: int,
) -> Option<Focus>
    decreases k,
{
    if k <= 0 {
        None
    } else if shown[k - 1].index == scroll.nexus.spec_item_index() {
        Some(scroll.spec_focus(bounds, caught[k - 1], link))
    } else {
        list_focus_after(scroll, bounds, link, shown, caught, k - 1)
    }
}

/// The `k`-th shown item of a list in `bounds` was laid out from `cs[k]`
/// to `cs[k + 1]`: its yard in the item's region with its foci caught
/// (`caught[k]`), ending at `ends[k]`, and the nearest depth reached so far
/// went from `zs[k]` to `zs[k + 1]`.
pub open spec fn list_item_laid<Y: Yard>(
    yards: Seq<Y>,
    bounds: Bounds,
    shown: Seq<LayoutItem>,
    cs: Seq<LayoutContext>,
    ends: Seq<usize>,
    caught: Seq<Option<Focus>>,
    zs: Seq<i32>,
    k: int,
) -> bool {
    &&& multi_laid(&yards[shown[k].index as int], bounds, true, shown[k].bounds, cs[k], cs[k + 1], ends[k], caught[k])
    &&& zs[k + 1] == nearer(zs[k], cs[k + 1].spec_holdings()[ends[k] as int].z)
}

/// One way a `ListYard` layout can go: the items shown in the edge region
/// (none when their regions would not fit an `i32` or the model's tops do
/// not match its heights) are laid out in turn, each in
/// its region with its foci caught, passing through the contexts `cs`; the
/// whole ends at the nearest depth reached (leaving `c1`), recorded as the
/// list's region; and the list offers its focus when the item under its
/// nexus was shown.
pub open spec fn list_step<Y: Yard>(
    scroll: ScrollModel,
    yards: Seq<Y>,
    link: SyncLink,
    before: LayoutContext,
    after: LayoutContext,
    r: usize,
    shown: Seq<LayoutItem>,
    cs: Seq<LayoutContext>,
    ends: Seq<usize>,
    caught: Seq<Option<Focus>>,
    zs: Seq<i32>,
    c1: LayoutContext,
) -> bool {
    let e = before.spec_edge();
    let n = shown.len();
    &&& shown == (if scroll.layout_items_ok(e) {
        scroll.spec_visible_from(e, 0)
    } else {
        Seq::empty()
    })
    &&& cs.len() == n + 1
    &&& ends.len() == n
    &&& caught.len() == n
    &&& zs.len() == n + 1
    &&& cs[0] == before
    &&& zs[0] == e.z
    &&& forall|k: int| 0 <= k < n ==> #[trigger] list_item_laid(yards, e, shown, cs, ends, caught, zs, k)
    &&& ended_at_depth(before, cs[n as int], c1, r, zs[n as int])
    &&& after.spec_holdings() == c1.spec_holdings()
    &&& after.spec_index() == c1.spec_index()
    &&& after.spec_trapping() == c1.spec_trapping()
    &&& after.spec_yard_map() == c1.spec_yard_map().insert(scroll.id, r)
    &&& match list_focus_after(scroll, e, link, shown, caught, n as int) {
        Some(f) => after.offered(c1, f),
        None => after.kept_foci(c1),
    }
}

impl<Y: Yard> Yard for ListYard<Y> {
    open spec fn paints_in(&self, hold: BoundsHold, focus_id: i32) -> bool {
        &&& has_region(hold, self.spec_scroll().id)
        &&& forall|k: int| 0 <= k < self.spec_yards().len() ==> (#[trigger] self.spec_yards()[k]).paints_in(hold, focus_id)
    }

    fn paints_ok(&self, hold: &BoundsHold, focus_id: i32) -> (r: bool) {
        if !hold.has_region_for(self.scroll.id) {
            return false;
        }
        let mut i: usize = 0;
        while i < self.yards.len()
            invariant
                has_region(*hold, self.spec_scroll().id),
                i <= self.yards@.len(),
                forall|k: int| 0 <= k < i ==> (#[trigger] self.spec_yards()[k]).paints_in(*hold, focus_id),
            decreases self.yards@.len() - i,
        {
            if !self.yards[i].paints_ok(hold, focus_id) {
                proof {
                    assert(!self.spec_yards()[i as int].paints_in(*hold, focus_id));
                }
                return false;
            }
            i = i + 1;
        }
        true
    }

    /// The yards of the items the list's region shows, in turn (none where
    /// the items cannot be laid out in it).
    open spec fn painted(&self, hold: BoundsHold, focus_id: i32, row: int, col: int, s: SpotStack) -> SpotStack {
        let b = region_of(hold, self.spec_scroll().id);
        if self.spec_scroll().layout_items_ok(b) {
            let shown = self.spec_scroll().spec_visible_from(b, 0);
            shown_painted(self.spec_yards(), shown, shown.len() as int, hold, focus_id, row, col, s)
        } else {
            s
        }
    }

    fn paint_spot(&self, hold: &BoundsHold, focus_id: i32, row: i32, col: i32, s: SpotStack) -> (r: SpotStack) {
        proof {
            use_type_invariant(self);
        }
        let bounds = *hold.yard_bounds(self.scroll.id);
        if !self.scroll.layout_fits(&bounds) {
            return s;
        }
        let item_count = self.scroll.item_count();
        proof {
            assert(self.scroll.item_heights@.len() == item_count);
            self.scroll.lemma_visible_indices(bounds, 0);
        }
        let items = self.scroll.layout_items(&bounds);
        let mut out = s;
        let mut i: usize = 0;
        while i < items.len()
            invariant
                self.paints_in(*hold, focus_id),
                self.yards@.len() == self.scroll.item_heights@.len(),
                items@ == self.scroll.spec_visible_from(bounds, 0),
                forall|k: int| 0 <= k < items@.len() ==> (#[trigger] items@[k]).index < self.yards@.len(),
                i <= items@.len(),
                out == shown_painted(self.yards@, items@, i as int, *hold, focus_id, row as int, col as int, s),
            decreases items@.len() - i,
        {
            let index = items[i].index;
            proof {
                assert(items@[i as int].index < self.yards@.len());
                assert(self.spec_yards()[index as int].paints_in(*hold, focus_id));
                assert(self.yards@[index as int] == self.spec_yards()[index as int]);
            }
            out = self.yards[index].paint_spot(hold, focus_id, row, col, out);
            i = i + 1;
        }
        out
    }

    open spec fn laid_out(&self, before: LayoutContext, after: LayoutContext, r: usize) -> bool {
        exists|
            shown: Seq<LayoutItem>,
            cs: Seq<LayoutContext>,
            ends: Seq<usize>,
            caught: Seq<Option<Focus>>,
            zs: Seq<i32>,
            c1: LayoutContext,
        |
            #![trigger list_step(self.spec_scroll(), self.spec_yards(), self.spec_scroll_link(), before, after, r, shown, cs, ends, caught, zs, c1)]
            list_step(self.spec_scroll(), self.spec_yards(), self.spec_scroll_link(), before, after, r, shown, cs, ends, caught, zs, c1)
    }

    fn id(&self) -> (r: i32)
        ensures
            r == self.spec_scroll().id,
    {
        self.scroll.id
    }

    /// Lays the shown items out at their regions, nearer than the list by
    /// nothing, with their foci caught; ends in a region of the edge's
    /// extent at the nearest depth reached, recorded as the list's region.
    /// Where the items' regions would not fit an `i32`, or the model's tops
    /// do not match its heights, no item is shown.
    fn layout(&self, ctx: &mut LayoutContext) -> (r: usize)
        ensures
            same_extent(final(ctx).spec_holdings()[r as int], old(ctx).spec_edge()),
            final(ctx).spec_holdings()[r as int].z <= old(ctx).spec_edge().z,
            final(ctx).spec_yard_map().contains_key(self.spec_scroll().id),
            final(ctx).spec_yard_map()[self.spec_scroll().id] == r,
            !old(ctx).spec_trapping() ==> {
                ||| final(ctx).spec_foci() == old(ctx).spec_foci()
                ||| final(ctx).spec_foci() == old(ctx).spec_foci().push(final(ctx).spec_foci().last()) && {
                    let f = final(ctx).spec_foci().last();
                    &&& f.yard_id == self.spec_scroll().id
                    &&& f.bounds == old(ctx).spec_edge()
                    &&& f.priority == 0
                }
            },
    {
        proof {
            use_type_invariant(self);
        }
        let (_bounds_id, bounds) = ctx.edge_bounds();
        let ghost c0 = *ctx;
        proof {
            lemma_take_all(ctx.spec_holdings());
        }
        let mut multi_layout = MultiLayout::new(ctx);
        multi_layout.trap_foci(true);
        let mut focus: Option<Focus> = None;
        let ghost mut shown: Seq<LayoutItem> = Seq::empty();
        let ghost mut cs: Seq<LayoutContext> = seq![c0];
        let ghost mut ends: Seq<usize> = Seq::empty();
        let ghost mut caught: Seq<Option<Focus>> = Seq::empty();
        let ghost mut zs: Seq<i32> = seq![bounds.z];
        if self.scroll.layout_fits(&bounds) {
            let item_count = self.scroll.item_count();
            proof {
                assert(self.scroll.item_heights@.len() == item_count);
                self.scroll.lemma_visible_indices(bounds, 0);
            }
            let focus_index = self.scroll.nexus.item_index();
            let items = self.scroll.layout_items(&bounds);
            proof {
                shown = items@;
            }
            let mut i: usize = 0;
            while i < items.len()
                invariant
                    multi_layout.works_in(ctx),
                    !multi_layout.spec_finished(),
                    multi_layout.spec_start_bounds() == bounds,
                    ctx.grew_from(c0),
                    c0.wf(),
                    c0.spec_edge() == bounds,
                    multi_layout.spec_near_z() <= bounds.z,
                    multi_layout.spec_trap_foci(),
                    ctx.spec_foci() == c0.spec_foci(),
                    focus matches Some(f) ==> f.yard_id == self.scroll.id && f.bounds == bounds && f.priority == 0,
                    i <= items@.len(),
                    items@ == self.scroll.spec_visible_from(bounds, 0),
                    forall|k: int| 0 <= k < items@.len() ==> (#[trigger] items@[k]).index < self.yards@.len(),
                    shown == items@,
                    focus_index == self.scroll.nexus.spec_item_index(),
                    cs.len() == i + 1,
                    ends.len() == i,
                    caught.len() == i,
                    zs.len() == i + 1,
                    cs[0] == c0,
                    zs[0] == bounds.z,
                    cs[i as int] == *ctx,
                    zs[i as int] == multi_layout.spec_near_z(),
                    focus == list_focus_after(self.scroll, bounds, self.scroll_link, shown, caught, i as int),
                    forall|k: int| 0 <= k < i ==> #[trigger] list_item_laid(self.yards@, bounds, shown, cs, ends, caught, zs, k),
                decreases items@.len() - i,
            {
                let item = items[i];
                let ghost before = *ctx;
                let ghost old_near = multi_layout.spec_near_z();
                multi_layout.layout(ctx, &self.yards[item.index], &item.bounds);
                proof {
                    lemma_grew_transitive(c0, before, *ctx);
                    let ghost cs0 = cs;
                    let ghost ends0 = ends;
                    let ghost caught0 = caught;
                    let ghost zs0 = zs;
                    cs = cs.push(*ctx);
                    ends = ends.push(multi_layout.spec_end_index());
                    caught = caught.push(multi_layout.spec_trapped_focus());
                    zs = zs.push(multi_layout.spec_near_z());
                    assert(cs[i as int] == before);
                    assert(list_item_laid(self.yards@, bounds, shown, cs, ends, caught, zs, i as int));
                    assert forall|k: int| 0 <= k < i + 1 implies #[trigger] list_item_laid(
                        self.yards@,
                        bounds,
                        shown,
                        cs,
                        ends,
                        caught,
                        zs,
                        k,
                    ) by {
                        if k < i {
                            assert(list_item_laid(self.yards@, bounds, shown, cs0, ends0, caught0, zs0, k));
                            assert(cs[k] == cs0[k] && cs[k + 1] == cs0[k + 1]);
                        }
                    }
                    assert forall|k: int| 0 <= k <= i implies list_focus_after(self.scroll, bounds, self.scroll_link, shown, caught, k)
                        == list_focus_after(self.scroll, bounds, self.scroll_link, shown, caught0, k) by {
                        lemma_focus_after_prefix(self.scroll, bounds, self.scroll_link, shown, caught, caught0, k);
                    }
                }
                if item.index == focus_index {
                    let sub_focus = multi_layout.trapped_focus();
                    focus = Some(self.scroll.create_focus(&bounds, sub_focus, self.scroll_link));
                }
                i = i + 1;
            }
        }
        let ghost c_last = *ctx;
        let final_bounds_id = multi_layout.finish(ctx);
        let ghost c1 = *ctx;
        proof {
            lemma_grew_transitive(c0, c_last, *ctx);
            assert(ctx.spec_holdings().take(c0.spec_holdings().len() as int)[c0.spec_index() as int]
                == c0.spec_holdings()[c0.spec_index() as int]);
        }
        match focus {
            Some(f) => ctx.add_focus(f),
            None => {},
        }
        ctx.set_yard_bounds(self.scroll.id, final_bounds_id);
        proof {
            lemma_take_all(ctx.spec_holdings());
            lemma_grew_transitive(c0, c1, *ctx);
            assert(ended_at_depth(c0, cs[shown.len() as int], c1, final_bounds_id, zs[shown.len() as int]));
            assert(list_step(self.spec_scroll(), self.spec_yards(), self.spec_scroll_link(), c0, *ctx, final_bounds_id, shown, cs, ends, caught, zs, c1));
        }
        final_bounds_id
    }
}

/// The focus a list offers after its first `k` shown items depends only on
/// what those items caught.
proof fn lemma_focus_after_prefix(
    scroll: ScrollModel,
    bounds: Bounds,
    link: SyncLink,
    shown: Seq<LayoutItem>,
    a: Seq<Option<Focus>>,
    b: Seq<Option<Focus>>,
    k: int,
)
    requires
        k <= a.len(),
        k <= b.len(),
        forall|m: int| 0 <= m < k ==> a[m] == b[m],
    ensures
        list_focus_after(scroll, bounds, link, shown, a, k) == list_focus_after(scroll, bounds, link, shown, b, k),
    decreases k,
{
    if k > 0 {
        lemma_focus_after_prefix(scroll, bounds, link, shown, a, b, k - 1);
    }
}

/// The focus a list offers answers the up and down arrows as its nexus can
/// move: it keeps the key and asks for the list to scroll that way exactly
/// when the nexus can move that way, and otherwise lets focus move on,
/// asking nothing; left and right always pass on. It answers as the list's
/// own `focus_motion` does.
pub proof fn lemma_list_focus_scrolls_with_nexus(
    m: ScrollModel,
    bounds: Bounds,
    sub_focus: Option<Focus>,
    link: SyncLink,
    motion: FocusMotion,
)
    requires
        m.nexus.spec_max_index() == m.item_heights@.len(),
    ensures
        ({
            let (future, reply) = m.spec_focus(bounds, sub_focus, link).spec_motion(motion);
            match motion {
                FocusMotion::Down => {
                    &&& (future == FocusMotionFuture::Skip) == (m.nexus.spec_down(m.item_heights@) is Some)
                    &&& reply == (if future == FocusMotionFuture::Skip {
                        FocusReply::Scroll(link, ScrollAction::Down)
                    } else {
                        FocusReply::Nothing
                    })
                },
                FocusMotion::Up => {
                    &&& (future == FocusMotionFuture::Skip) == (m.nexus.spec_up(m.item_heights@) is Some)
                    &&& reply == (if future == FocusMotionFuture::Skip {
                        FocusReply::Scroll(link, ScrollAction::Up)
                    } else {
                        FocusReply::Nothing
                    })
                },
                _ => future == FocusMotionFuture::Default && reply == FocusReply::Nothing,
            }
        }),
        ({
            let (future, reply) = m.spec_focus(bounds, sub_focus, link).spec_motion(motion);
            let (list_future, list_scroll) = m.spec_focus_motion(motion);
            &&& future == list_future
            &&& reply == match list_scroll {
                Some(action) => FocusReply::Scroll(link, action),
                None => FocusReply::Nothing,
            }
        }),
{
    lemma_can_move_iff_move_succeeds(m.nexus, m.item_heights@);
}

} // verus!
