//! The nexus of a scrolling list: the item that holds the list's focus, and
//! the list position (in rows from the top of the whole list) at which that
//! item is anchored. An `Up` nexus is anchored by the first row of its item,
//! a `Down` nexus by the last row.

use crate::bounds::{fits_i32, max_int, min_int, Bounds};
use vstd::prelude::*;

verus! {

/// Sum of the first `n` heights: the list position of item `n`'s first row.
pub open spec fn prefix_sum(heights: Seq<i32>, n: int) -> int
    decreases n,
{
    if n <= 0 || heights.len() == 0 {
        0
    } else if n > heights.len() {
        prefix_sum(heights, heights.len() as int)
    } else {
        prefix_sum(heights, n - 1) + heights[n - 1]
    }
}

/// Rust's `/` by five on an `i32`: the quotient rounded toward zero.
pub open spec fn div5_toward_zero(x: int) -> int {
    if x >= 0 { x / 5 } else { -((-x) / 5) }
}

#[derive(Debug, Copy, Clone, PartialEq, Eq, Structural)]
pub enum Nexus {
    Up { first_pos: i32, item_index: usize, max_index: usize },
    Down { last_pos: i32, item_index: usize, max_index: usize },
}

impl Nexus {
    pub open spec fn spec_item_index(self) -> usize {
        match self {
            Nexus::Up { item_index, .. } => item_index,
            Nexus::Down { item_index, .. } => item_index,
        }
    }

    pub open spec fn spec_max_index(self) -> usize {
        match self {
            Nexus::Up { max_index, .. } => max_index,
            Nexus::Down { max_index, .. } => max_index,
        }
    }

    pub open spec fn spec_pivot_pos(self) -> i32 {
        match self {
            Nexus::Up { first_pos, .. } => first_pos,
            Nexus::Down { last_pos, .. } => last_pos,
        }
    }

    /// The nexus sits on one of the items and its position is that item's
    /// first row (`Up`) or last row (`Down`) within the list.
    pub open spec fn anchored(self, heights: Seq<i32>) -> bool {
        match self {
            Nexus::Up { first_pos, item_index, .. } => {
                &&& (item_index < heights.len() || item_index == 0)
                &&& first_pos == prefix_sum(heights, item_index as int)
            },
            Nexus::Down { last_pos, item_index, .. } => {
                &&& item_index < heights.len()
                &&& last_pos == prefix_sum(heights, item_index + 1) - 1
            },
        }
    }

    /// What `down` gives: the next item, anchored by its last row.
    pub open spec fn spec_down(self, heights: Seq<i32>) -> Option<Nexus> {
        let next = self.spec_item_index() + 1;
        if next >= heights.len() {
            None
        } else {
            match self {
                Nexus::Up { first_pos, item_index, max_index } => Some(
                    Nexus::Down {
                        last_pos: (first_pos + heights[item_index as int] + heights[next] - 1) as i32,
                        item_index: next as usize,
                        max_index,
                    },
                ),
                Nexus::Down { last_pos, max_index, .. } => Some(
                    Nexus::Down { last_pos: (last_pos + heights[next]) as i32, item_index: next as usize, max_index },
                ),
            }
        }
    }

    /// `down` neither panics nor overflows.
    pub open spec fn down_ok(self, heights: Seq<i32>) -> bool {
        let next = self.spec_item_index() + 1;
        next < heights.len() ==> {
            &&& heights[next] > 0
            &&& match self {
                Nexus::Up { first_pos, item_index, .. } => {
                    &&& fits_i32(first_pos + heights[item_index as int])
                    &&& fits_i32(first_pos + heights[item_index as int] + heights[next])
                },
                Nexus::Down { last_pos, .. } => fits_i32(last_pos + heights[next]),
            }
        }
    }

    /// What `up` gives: the previous item, anchored by its first row.
    pub open spec fn spec_up(self, heights: Seq<i32>) -> Option<Nexus> {
        match self {
            Nexus::Up { first_pos, item_index, max_index } => if item_index == 0 {
                None
            } else {
                Some(
                    Nexus::Up {
                        first_pos: (first_pos - heights[item_index - 1]) as i32,
                        item_index: (item_index - 1) as usize,
                        max_index,
                    },
                )
            },
            Nexus::Down { last_pos, item_index, max_index } => if item_index == 0 {
                None
            } else {
                Some(
                    Nexus::Up {
                        first_pos: (last_pos - heights[item_index as int] - heights[item_index - 1] + 1) as i32,
                        item_index: (item_index - 1) as usize,
                        max_index,
                    },
                )
            },
        }
    }

    /// `up` neither panics nor overflows.
    pub open spec fn up_ok(self, heights: Seq<i32>) -> bool {
        let i = self.spec_item_index();
        i > 0 ==> {
            &&& i - 1 < heights.len()
            &&& heights[i - 1] > 0
            &&& match self {
                Nexus::Up { first_pos, .. } => fits_i32(first_pos - heights[i - 1]),
                Nexus::Down { last_pos, .. } => {
                    &&& i < heights.len()
                    &&& fits_i32(last_pos - heights[i as int])
                    &&& fits_i32(last_pos - heights[i as int] - heights[i - 1])
                    &&& fits_i32(last_pos - heights[i as int] - heights[i - 1] + 1)
                },
            }
        }
    }

    /// The screen row at which the nexus item's anchor row is drawn.
    ///
    /// When the whole list fits the bounds, items sit at their list
    /// positions. Otherwise the anchor is placed proportionally: at the
    /// floor of `(pivot_pos + 1) / list_height` of the bounds height less a
    /// millionth of a row (taken exactly, so a floating-point computation of
    /// the same rule may round a row apart), then kept clear of the edges so
    /// that neighbouring items stay visible.
    pub open spec fn spec_pivot_row(
        self,
        bounds_height: int,
        bounds_top: int,
        list_height: int,
        min_item_height: int,
        item_tops: Seq<i32>,
    ) -> int {
        if list_height <= bounds_height {
            bounds_top + match self {
                Nexus::Up { item_index, .. } => item_tops[item_index as int] as int,
                Nexus::Down { item_index, .. } => if item_index + 1 == item_tops.len() {
                    list_height - 1
                } else {
                    item_tops[item_index + 1] - 1
                },
            }
        } else {
            let rows_from_top = ((self.spec_pivot_pos() + 1) * bounds_height * 1_000_000 - list_height) / (list_height
                * 1_000_000);
            let fifth = div5_toward_zero(bounds_height);
            bounds_top + match self {
                Nexus::Up { item_index, max_index, .. } => {
                    let index_extra = min_int(((max_index - item_index - 1) as usize) as i32 as int, fifth);
                    max_int(
                        min_int(rows_from_top, (bounds_height - min_item_height) - index_extra),
                        if item_index == 0 { 0 } else { 1 },
                    )
                },
                Nexus::Down { item_index, max_index, .. } => {
                    let index_extra = min_int(item_index as i32 as int, fifth);
                    min_int(
                        max_int(rows_from_top, (min_item_height - 1) + index_extra),
                        bounds_height - 1 - if item_index + 1 >= max_index { 0int } else { 1int },
                    )
                },
            }
        }
    }

    /// `pivot_row` neither panics nor overflows.
    pub open spec fn pivot_row_ok(
        self,
        bounds_height: int,
        bounds_top: int,
        list_height: int,
        min_item_height: int,
        item_tops: Seq<i32>,
    ) -> bool {
        &&& fits_i32(self.spec_pivot_row(bounds_height, bounds_top, list_height, min_item_height, item_tops))
        &&& if list_height <= bounds_height {
            match self {
                Nexus::Up { item_index, .. } => item_index < item_tops.len(),
                Nexus::Down { item_index, .. } => {
                    &&& item_index < item_tops.len()
                    &&& fits_i32(list_height - 1)
                    &&& (item_index + 1 < item_tops.len() ==> fits_i32(item_tops[item_index + 1] - 1))
                },
            }
        } else {
            &&& list_height > 0
            &&& self.spec_pivot_pos() < i32::MAX
            &&& match self {
                Nexus::Up { item_index, max_index, .. } => item_index < max_index,
                Nexus::Down { .. } => true,
            }
        }
    }

    pub fn can_up(&self) -> (r: bool)
        ensures
            r == (self.spec_item_index() > 0),
    {
        self.item_index() > 0
    }

    pub fn can_down(&self) -> (r: bool)
        requires
            self.spec_item_index() < usize::MAX,
        ensures
            r == (self.spec_item_index() + 1 < self.spec_max_index()),
    {
        (self.item_index() + 1) < self.max_index()
    }

    /// The nexus on the next item, anchored by its last row; `None` at the last item.
    pub fn down(&self, item_heights: &Vec<i32>) -> (r: Option<Nexus>)
        requires
            self.down_ok(item_heights@),
        ensures
            r == self.spec_down(item_heights@),
    {
        match self {
            Nexus::Up { first_pos: first_row, item_index, max_index } => {
                if item_heights.len() == 0 || *item_index >= item_heights.len() - 1 {
                    None
                } else {
                    let next_item_index = *item_index + 1;
                    let next_item_height = item_heights[next_item_index];
                    let next_first_row = *first_row + item_heights[*item_index];
                    let next_last_row = next_first_row + next_item_height - 1;
                    Some(Nexus::Down { last_pos: next_last_row, item_index: next_item_index, max_index: *max_index })
                }
            },
            Nexus::Down { last_pos: last_row, item_index, max_index } => {
                if item_heights.len() == 0 || *item_index >= item_heights.len() - 1 {
                    None
                } else {
                    let next_item_index = *item_index + 1;
                    let next_item_height = item_heights[next_item_index];
                    let next_last_row = *last_row + next_item_height;
                    Some(Nexus::Down { last_pos: next_last_row, item_index: next_item_index, max_index: *max_index })
                }
            },
        }
    }

    /// The nexus on the previous item, anchored by its first row; `None` at the first item.
    pub fn up(&self, item_heights: &Vec<i32>) -> (r: Option<Nexus>)
        requires
            self.up_ok(item_heights@),
        ensures
            r == self.spec_up(item_heights@),
    {
        match self {
            Nexus::Up { first_pos: first_row, item_index, max_index } => {
                if *item_index == 0 {
                    None
                } else {
                    let next_item_index = *item_index - 1;
                    let next_item_height = item_heights[next_item_index];
                    let next_first_row = *first_row - next_item_height;
                    Some(Nexus::Up { first_pos: next_first_row, item_index: next_item_index, max_index: *max_index })
                }
            },
            Nexus::Down { last_pos: last_row, item_index, max_index } => {
                if *item_index == 0 {
                    None
                } else {
                    let next_index_index = *item_index - 1;
                    let next_item_height = item_heights[next_index_index];
                    let item_height = item_heights[*item_index];
                    let next_last_row = *last_row - item_height;
                    let next_first_row = next_last_row - next_item_height + 1;
                    Some(Nexus::Up { first_pos: next_first_row, item_index: next_index_index, max_index: *max_index })
                }
            },
        }
    }

    /// What `pivot_row` needs beyond its result fitting an `i32`: the items
    /// it reads exist and the list height it divides by is positive.
    pub open spec fn pivot_shape_ok(self, bounds_height: int, list_height: int, item_tops: Seq<i32>) -> bool {
        if list_height <= bounds_height {
            self.spec_item_index() < item_tops.len()
        } else {
            &&& list_height > 0
            &&& match self {
                Nexus::Up { item_index, max_index, .. } => item_index < max_index,
                Nexus::Down { .. } => true,
            }
        }
    }

    /// The screen row of the nexus item's anchor row; see `spec_pivot_row`.
    pub fn pivot_row(
        &self,
        bounds_height: i32,
        bounds_top: i32,
        list_height: i32,
        min_item_height: i32,
        item_tops: &Vec<i32>,
    ) -> (r: i32)
        requires
            self.pivot_row_ok(
                bounds_height as int,
                bounds_top as int,
                list_height as int,
                min_item_height as int,
                item_tops@,
            ),
        ensures
            r == self.spec_pivot_row(
                bounds_height as int,
                bounds_top as int,
                list_height as int,
                min_item_height as int,
                item_tops@,
            ),
    {
        let row = self.pivot_row_wide(bounds_height, bounds_top, list_height, min_item_height, item_tops);
        row as i32
    }

    /// The screen row of the nexus item's anchor row, computed without
    /// overflow as an `i64`.
    pub fn pivot_row_wide(
        &self,
        bounds_height: i32,
        bounds_top: i32,
        list_height: i32,
        min_item_height: i32,
        item_tops: &Vec<i32>,
    ) -> (r: i64)
        requires
            self.pivot_shape_ok(bounds_height as int, list_height as int, item_tops@),
        ensures
            r == self.spec_pivot_row(
                bounds_height as int,
                bounds_top as int,
                list_height as int,
                min_item_height as int,
                item_tops@,
            ),
    {
        if list_height <= bounds_height {
            let offset: i64 = match self {
                Nexus::Up { item_index, .. } => item_tops[*item_index] as i64,
                Nexus::Down { item_index, .. } => {
                    if *item_index == item_tops.len() - 1 {
                        list_height as i64 - 1
                    } else {
                        item_tops[*item_index + 1] as i64 - 1
                    }
                },
            };
            bounds_top as i64 + offset
        } else {
            let pos_next: i128 = self.pivot_pos() as i128 + 1;
            let bh128: i128 = bounds_height as i128;
            let lh128: i128 = list_height as i128;
            proof {
                assert(-0x4000_0000_0000_0000 <= pos_next * bh128 <= 0x4000_0000_0000_0000) by (nonlinear_arith)
                    requires
                        -0x8000_0000 <= pos_next <= 0x8000_0000,
                        -0x8000_0000 <= bh128 <= 0x7fff_ffff,
                ;
                assert(-0x4000_0000_0000_0000 * 1_000_000 <= pos_next * bh128 * 1_000_000 <= 0x4000_0000_0000_0000
                    * 1_000_000) by (nonlinear_arith)
                    requires
                        -0x4000_0000_0000_0000 <= pos_next * bh128 <= 0x4000_0000_0000_0000,
                ;
            }
            let numerator: i128 = pos_next * bh128 * 1_000_000 - lh128;
            let exact_rows: i128 = floor_div(numerator, lh128 * 1_000_000);
            let limit: i128 = 0x100_0000_0000;
            let rows_from_top: i64 = if exact_rows > limit {
                0x100_0000_0000
            } else if exact_rows < -limit {
                -0x100_0000_0000
            } else {
                exact_rows as i64
            };
            let height: i64 = bounds_height as i64;
            let fifth: i64 = if height >= 0 { height / 5 } else { -((-height) / 5) };
            let offset: i64 = match self {
                Nexus::Up { item_index, max_index, .. } => {
                    let remaining: usize = *max_index - *item_index - 1;
                    let remaining32: i32 = #[verifier::truncate] (remaining as i32);
                    let index_extra: i64 = if (remaining32 as i64) <= fifth { remaining32 as i64 } else { fifth };
                    let ceiling: i64 = (height - min_item_height as i64) - index_extra;
                    let clamped: i64 = if rows_from_top <= ceiling { rows_from_top } else { ceiling };
                    let floor_row: i64 = if *item_index == 0 { 0 } else { 1 };
                    if clamped >= floor_row { clamped } else { floor_row }
                },
                Nexus::Down { item_index, max_index, .. } => {
                    let index32: i32 = #[verifier::truncate] (*item_index as i32);
                    let index_extra: i64 = if (index32 as i64) <= fifth { index32 as i64 } else { fifth };
                    let floor_row: i64 = (min_item_height as i64 - 1) + index_extra;
                    let raised: i64 = if rows_from_top >= floor_row { rows_from_top } else { floor_row };
                    let at_end: bool = *item_index >= *max_index || *max_index - *item_index <= 1;
                    let ceiling: i64 = height - 1 - if at_end { 0 } else { 1 };
                    if raised <= ceiling { raised } else { ceiling }
                },
            };
            bounds_top as i64 + offset
        }
    }

    /// The region of item `index` when the nexus item's anchor row is drawn
    /// at `pivot_row`: items keep their list distance from the anchor.
    pub fn item_bounds(
        &self,
        index: usize,
        bounds: &Bounds,
        pivot_row: i32,
        pivot_pos: i32,
        item_tops: &Vec<i32>,
        item_heights: &Vec<i32>,
    ) -> (r: Bounds)
        requires
            index < item_tops@.len(),
            index < item_heights@.len(),
            self.item_bounds_ok(index as int, *bounds, pivot_row as int, pivot_pos as int, item_tops@, item_heights@),
        ensures
            r == self.spec_item_bounds(index as int, *bounds, pivot_row as int, pivot_pos as int, item_tops@, item_heights@),
    {
        let top_pos = item_tops[index];
        let height = item_heights[index];
        match self {
            Nexus::Up { .. } => {
                let top_pos_from_pivot = top_pos - pivot_pos;
                let top_row = pivot_row + top_pos_from_pivot;
                bounds.set_height_from_above(top_row - bounds.top, height)
            },
            Nexus::Down { .. } => {
                let bottom_pos = top_pos + height;
                let bottom_pos_from_pivot = bottom_pos - pivot_pos;
                let bottom_row = pivot_row + bottom_pos_from_pivot;
                bounds.set_height_from_below(bounds.bottom - bottom_row, height)
            },
        }
    }

    /// The region of item `index`: an `Up` nexus lays items out downward
    /// from the anchor's first row, a `Down` nexus upward from the anchor's
    /// last row. Columns and depth are those of `bounds`.
    pub open spec fn spec_item_bounds(
        self,
        index: int,
        bounds: Bounds,
        pivot_row: int,
        pivot_pos: int,
        item_tops: Seq<i32>,
        item_heights: Seq<i32>,
    ) -> Bounds {
        match self {
            Nexus::Up { .. } => {
                let top_row = pivot_row + (item_tops[index] - pivot_pos);
                Bounds { top: top_row as i32, bottom: (top_row + item_heights[index]) as i32, ..bounds }
            },
            Nexus::Down { .. } => {
                let bottom_row = pivot_row + (item_tops[index] + item_heights[index] - pivot_pos);
                Bounds { bottom: bottom_row as i32, top: (bottom_row - item_heights[index]) as i32, ..bounds }
            },
        }
    }

    /// `item_bounds` neither panics nor overflows.
    pub open spec fn item_bounds_ok(
        self,
        index: int,
        bounds: Bounds,
        pivot_row: int,
        pivot_pos: int,
        item_tops: Seq<i32>,
        item_heights: Seq<i32>,
    ) -> bool {
        match self {
            Nexus::Up { .. } => {
                let top_row = pivot_row + (item_tops[index] - pivot_pos);
                &&& fits_i32(item_tops[index] - pivot_pos)
                &&& fits_i32(top_row)
                &&& fits_i32(top_row - bounds.top)
                &&& fits_i32(top_row + item_heights[index])
            },
            Nexus::Down { .. } => {
                let bottom_pos = item_tops[index] + item_heights[index];
                let bottom_row = pivot_row + (bottom_pos - pivot_pos);
                &&& fits_i32(bottom_pos)
                &&& fits_i32(bottom_pos - pivot_pos)
                &&& fits_i32(bottom_row)
                &&& fits_i32(bounds.bottom - bottom_row)
                &&& fits_i32(bottom_row - item_heights[index])
            },
        }
    }

    pub fn pivot_pos(&self) -> (r: i32)
        ensures
            r == self.spec_pivot_pos(),
    {
        match self {
            Nexus::Up { first_pos, .. } => *first_pos,
            Nexus::Down { last_pos, .. } => *last_pos,
        }
    }

    pub fn item_index(&self) -> (r: usize)
        ensures
            r == self.spec_item_index(),
    {
        match self {
            Nexus::Up { item_index, .. } => *item_index,
            Nexus::Down { item_index, .. } => *item_index,
        }
    }

    pub fn max_index(&self) -> (r: usize)
        ensures
            r == self.spec_max_index(),
    {
        match self {
            Nexus::Up { max_index, .. } => *max_index,
            Nexus::Down { max_index, .. } => *max_index,
        }
    }

    /// What `new` gives: the first item anchored by its first row, or item
    /// `index` anchored by its last row.
    pub open spec fn spec_new(index: int, heights: Seq<i32>) -> Nexus {
        if index == 0 {
            Nexus::Up { first_pos: 0, item_index: 0, max_index: heights.len() as usize }
        } else {
            Nexus::Down {
                last_pos: (prefix_sum(heights, index + 1) - 1) as i32,
                item_index: index as usize,
                max_index: heights.len() as usize,
            }
        }
    }

    /// `new` neither panics nor overflows: the item exists, the items that
    /// the nexus walks onto have positive heights, and every list position
    /// visited fits an `i32`.
    pub open spec fn new_ok(index: int, heights: Seq<i32>) -> bool {
        &&& (index == 0 || index < heights.len())
        &&& forall|k: int| 1 <= k <= index ==> #[trigger] heights[k] > 0
        &&& forall|k: int| 1 <= k <= index + 1 ==> fits_i32(#[trigger] prefix_sum(heights, k))
        &&& forall|k: int| 2 <= k <= index + 1 ==> fits_i32(#[trigger] prefix_sum(heights, k) - 1)
    }

    /// The nexus on item `index`, reached by walking down from the top of the list.
    pub fn new(index: usize, item_heights: &Vec<i32>) -> (r: Nexus)
        requires
            Nexus::new_ok(index as int, item_heights@),
        ensures
            r == Nexus::spec_new(index as int, item_heights@),
    {
        let ghost h = item_heights@;
        let mut nexus = Nexus::Up { first_pos: 0, item_index: 0, max_index: item_heights.len() };
        let mut i: usize = 0;
        while i < index
            invariant
                Nexus::new_ok(index as int, h),
                h == item_heights@,
                i <= index,
                nexus == Nexus::spec_new(i as int, h),
            decreases index - i,
        {
            proof {
                assert(prefix_sum(h, i + 1) == prefix_sum(h, i as int) + h[i as int]);
                assert(prefix_sum(h, i + 2) == prefix_sum(h, i + 1) + h[i + 1]);
                if i == 0 {
                    assert(prefix_sum(h, 0) == 0);
                    assert(fits_i32(prefix_sum(h, 1)));
                }
            }
            let next = nexus.down(item_heights);
            nexus = next.unwrap();
            i = i + 1;
        }
        nexus
    }
}


impl Nexus {
    /// The same item, anchored by its first row.
    pub open spec fn as_up(self, heights: Seq<i32>) -> Nexus {
        Nexus::Up {
            first_pos: prefix_sum(heights, self.spec_item_index() as int) as i32,
            item_index: self.spec_item_index(),
            max_index: self.spec_max_index(),
        }
    }

    /// The same item, anchored by its last row.
    pub open spec fn as_down(self, heights: Seq<i32>) -> Nexus {
        Nexus::Down {
            last_pos: (prefix_sum(heights, self.spec_item_index() + 1) - 1) as i32,
            item_index: self.spec_item_index(),
            max_index: self.spec_max_index(),
        }
    }
}

/// Adding the next height extends the prefix sum.
pub proof fn lemma_prefix_sum_step(heights: Seq<i32>, n: int)
    requires
        0 <= n < heights.len(),
    ensures
        prefix_sum(heights, n + 1) == prefix_sum(heights, n) + heights[n],
{
}

/// Moving down from an anchored nexus lands, anchored, on the next item,
/// and `down` gives `None` exactly at the last item.
pub proof fn lemma_down_moves_to_next_item(n: Nexus, heights: Seq<i32>)
    requires
        heights.len() <= usize::MAX,
        n.anchored(heights),
        n.down_ok(heights),
    ensures
        n.spec_down(heights) is None <==> n.spec_item_index() + 1 >= heights.len(),
        n.spec_down(heights) matches Some(d) ==> {
            &&& d.anchored(heights)
            &&& d == n.as_down(heights).next_down_of(heights)
            &&& d.spec_item_index() == n.spec_item_index() + 1
            &&& d.spec_max_index() == n.spec_max_index()
            &&& d is Down
        },
{
    let i = n.spec_item_index() as int;
    if i + 1 < heights.len() {
        lemma_prefix_sum_step(heights, i);
        lemma_prefix_sum_step(heights, i + 1);
    }
}

impl Nexus {
    /// The next item anchored by its last row.
    pub open spec fn next_down_of(self, heights: Seq<i32>) -> Nexus {
        Nexus::Down {
            last_pos: (prefix_sum(heights, self.spec_item_index() + 2) - 1) as i32,
            item_index: (self.spec_item_index() + 1) as usize,
            max_index: self.spec_max_index(),
        }
    }

    /// The previous item anchored by its first row.
    pub open spec fn next_up_of(self, heights: Seq<i32>) -> Nexus {
        Nexus::Up {
            first_pos: prefix_sum(heights, self.spec_item_index() - 1) as i32,
            item_index: (self.spec_item_index() - 1) as usize,
            max_index: self.spec_max_index(),
        }
    }
}

/// Moving up from an anchored nexus lands, anchored, on the previous item,
/// and `up` gives `None` exactly at the first item.
pub proof fn lemma_up_moves_to_previous_item(n: Nexus, heights: Seq<i32>)
    requires
        heights.len() <= usize::MAX,
        n.anchored(heights),
        n.up_ok(heights),
    ensures
        n.spec_up(heights) is None <==> n.spec_item_index() == 0,
        n.spec_up(heights) matches Some(u) ==> {
            &&& u.anchored(heights)
            &&& u == n.next_up_of(heights)
            &&& u.spec_item_index() == n.spec_item_index() - 1
            &&& u.spec_max_index() == n.spec_max_index()
            &&& u is Up
        },
{
    let i = n.spec_item_index() as int;
    if i > 0 {
        lemma_prefix_sum_step(heights, i - 1);
        if i < heights.len() {
            lemma_prefix_sum_step(heights, i);
        }
    }
}

/// Moving up undoes moving down: the nexus returns to its item, anchored
/// by the item's first row.
pub proof fn lemma_up_undoes_down(n: Nexus, heights: Seq<i32>)
    requires
        heights.len() <= usize::MAX,
        n.anchored(heights),
        n.down_ok(heights),
        n.spec_down(heights) is Some,
        n.spec_down(heights)->0.up_ok(heights),
    ensures
        n.spec_down(heights)->0.spec_up(heights) == Some(n.as_up(heights)),
{
    lemma_down_moves_to_next_item(n, heights);
    let d = n.spec_down(heights)->0;
    lemma_up_moves_to_previous_item(d, heights);
}

/// Moving down undoes moving up: the nexus returns to its item, anchored
/// by the item's last row.
pub proof fn lemma_down_undoes_up(n: Nexus, heights: Seq<i32>)
    requires
        heights.len() <= usize::MAX,
        n.anchored(heights),
        n.up_ok(heights),
        n.spec_up(heights) is Some,
        n.spec_item_index() < heights.len(),
        n.spec_up(heights)->0.down_ok(heights),
    ensures
        n.spec_up(heights)->0.spec_down(heights) == Some(n.as_down(heights)),
{
    lemma_up_moves_to_previous_item(n, heights);
    let u = n.spec_up(heights)->0;
    lemma_down_moves_to_next_item(u, heights);
}

/// A nexus can move up exactly when it is not on the first item, and down
/// exactly when it is not on the last item of a list of `max_index` items.
pub proof fn lemma_can_move_iff_move_succeeds(n: Nexus, heights: Seq<i32>)
    requires
        n.spec_max_index() == heights.len(),
    ensures
        (n.spec_item_index() > 0) <==> n.spec_up(heights) is Some,
        (n.spec_item_index() + 1 < n.spec_max_index()) <==> n.spec_down(heights) is Some,
{
}

/// The nexus that `new` builds is anchored on its item.
pub proof fn lemma_new_is_anchored(index: int, heights: Seq<i32>)
    requires
        index >= 0,
        heights.len() <= usize::MAX,
        Nexus::new_ok(index, heights),
    ensures
        Nexus::spec_new(index, heights).anchored(heights),
        Nexus::spec_new(index, heights).spec_item_index() == index,
        Nexus::spec_new(index, heights).spec_max_index() == heights.len(),
{
    if index > 0 {
        assert(fits_i32(prefix_sum(heights, index + 1) - 1));
    }
}

/// The floor of `n / d` for a positive `d`.
fn floor_div(n: i128, d: i128) -> (q: i128)
    requires
        d > 0,
    ensures
        q == n as int / d as int,
{
    if n >= 0 {
        n / d
    } else {
        let m: i128 = -(n + 1);
        let q0: i128 = m / d;
        proof {
            lemma_floor_of_negative(n as int, d as int, q0 as int);
        }
        -q0 - 1
    }
}

proof fn lemma_floor_of_negative(n: int, d: int, q0: int)
    requires
        d > 0,
        n < 0,
        q0 == (-(n + 1)) / d,
    ensures
        n / d == -q0 - 1,
{
    let m = -(n + 1);
    let r0 = m % d;
    vstd::arithmetic::div_mod::lemma_fundamental_div_mod(m, d);
    assert(m == d * q0 + r0);
    assert(0 <= r0 < d);
    assert(n == d * (-q0 - 1) + (d - 1 - r0)) by (nonlinear_arith)
        requires
            m == d * q0 + r0,
            m == -(n + 1),
    ;
    vstd::arithmetic::div_mod::lemma_fundamental_div_mod_converse(n, d, -q0 - 1, d - 1 - r0);
}

/// When the list is taller than its region, an `Up` nexus's anchor row
/// leaves room below it: it stands no lower than the region's height less
/// the least item height and less the items after the nexus item (at most
/// a fifth of the region), unless that would put it above the floor row
/// (the top row, or the one below it past the first item); so an anchored
/// item of the least height lies wholly within the region.
pub proof fn lemma_up_pivot_leaves_room(
    n: Nexus,
    bounds_height: int,
    bounds_top: int,
    list_height: int,
    min_item_height: int,
    item_tops: Seq<i32>,
)
    requires
        n is Up,
        list_height > bounds_height,
        bounds_height >= 0,
        n.spec_item_index() < n.spec_max_index(),
        n.spec_max_index() - n.spec_item_index() - 1 <= i32::MAX,
    ensures
        ({
            let row = n.spec_pivot_row(bounds_height, bounds_top, list_height, min_item_height, item_tops)
                - bounds_top;
            let after = n.spec_max_index() - n.spec_item_index() - 1;
            let extra = if after <= bounds_height / 5 { after } else { bounds_height / 5 };
            let floor_row = if n.spec_item_index() == 0 { 0int } else { 1int };
            let ceiling = bounds_height - min_item_height - extra;
            &&& row >= floor_row
            &&& ceiling >= floor_row ==> row <= ceiling && row + min_item_height <= bounds_height
        }),
{
}

/// When the list is taller than its region, a `Down` nexus's anchor row
/// leaves room above it: it stands no higher than the least item height
/// less one plus the items before the nexus item (at most a fifth of the
/// region), unless that would put it below the ceiling row (the bottom
/// row, or the one above it before the last item); so an anchored item of
/// the least height, which ends on that row, starts within the region.
pub proof fn lemma_down_pivot_leaves_room(
    n: Nexus,
    bounds_height: int,
    bounds_top: int,
    list_height: int,
    min_item_height: int,
    item_tops: Seq<i32>,
)
    requires
        n is Down,
        list_height > bounds_height,
        bounds_height >= 0,
        n.spec_item_index() <= i32::MAX,
    ensures
        ({
            let row = n.spec_pivot_row(bounds_height, bounds_top, list_height, min_item_height, item_tops)
                - bounds_top;
            let before = n.spec_item_index() as int;
            let extra = if before <= bounds_height / 5 { before } else { bounds_height / 5 };
            let floor_row = min_item_height - 1 + extra;
            let ceiling = bounds_height - 1 - if n.spec_item_index() + 1 >= n.spec_max_index() { 0int } else { 1int };
            &&& row <= ceiling
            &&& floor_row <= ceiling ==> row >= floor_row && row - min_item_height + 1 >= 0
        }),
{
}

/// When the list is taller than its region and the anchor row is not held
/// at the edges, it is the proportional row: the last row whose start lies
/// strictly before `(pivot_pos + 1) / list_height` of the region's height,
/// with a millionth of a row to spare.
pub proof fn lemma_pivot_row_proportional(
    n: Nexus,
    bounds_height: int,
    bounds_top: int,
    list_height: int,
    min_item_height: int,
    item_tops: Seq<i32>,
)
    requires
        list_height > bounds_height,
        bounds_height >= 0,
        n.spec_item_index() <= i32::MAX,
        n.spec_item_index() < n.spec_max_index(),
        n.spec_max_index() - n.spec_item_index() - 1 <= i32::MAX,
    ensures
        ({
            let q = n.spec_pivot_row(bounds_height, bounds_top, list_height, min_item_height, item_tops) - bounds_top;
            let fifth = bounds_height / 5;
            let (low, high) = match n {
                Nexus::Up { item_index, max_index, .. } => {
                    let after = max_index - item_index - 1;
                    (
                        if item_index == 0 { 0int } else { 1int },
                        bounds_height - min_item_height - (if after <= fifth { after } else { fifth }),
                    )
                },
                Nexus::Down { item_index, max_index, .. } => (
                    min_item_height - 1 + (if item_index <= fifth { item_index as int } else { fifth }),
                    bounds_height - 1 - (if item_index + 1 >= max_index { 0int } else { 1int }),
                ),
            };
            let scaled = (n.spec_pivot_pos() + 1) * bounds_height * 1_000_000 - list_height;
            low < q < high ==> q * (list_height * 1_000_000) <= scaled < (q + 1) * (list_height * 1_000_000)
        }),
{
    let d = list_height * 1_000_000;
    let scaled = (n.spec_pivot_pos() + 1) * bounds_height * 1_000_000 - list_height;
    vstd::arithmetic::div_mod::lemma_fundamental_div_mod(scaled, d);
    let r = scaled / d;
    assert(r * d <= scaled < (r + 1) * d) by (nonlinear_arith)
        requires scaled == d * r + scaled % d, 0 <= scaled % d < d;
}

/// Items keep their list distances on the screen: each item's region is
/// its own height tall, spans the columns and depth of `bounds`, and lies
/// as far below another item's region as it lies below that item in the
/// list; the nexus item's anchor row (its first row for `Up`, its last for
/// `Down`) is drawn at `pivot_row`.
pub proof fn lemma_item_regions_keep_list_distances(
    n: Nexus,
    i: int,
    j: int,
    bounds: Bounds,
    pivot_row: int,
    item_tops: Seq<i32>,
    item_heights: Seq<i32>,
)
    requires
        0 <= i < item_tops.len(),
        0 <= j < item_tops.len(),
        item_heights.len() == item_tops.len(),
        n.item_bounds_ok(i, bounds, pivot_row, n.spec_pivot_pos() as int, item_tops, item_heights),
        n.item_bounds_ok(j, bounds, pivot_row, n.spec_pivot_pos() as int, item_tops, item_heights),
    ensures
        ({
            let pp = n.spec_pivot_pos() as int;
            let a = n.spec_item_bounds(i, bounds, pivot_row, pp, item_tops, item_heights);
            let b = n.spec_item_bounds(j, bounds, pivot_row, pp, item_tops, item_heights);
            &&& a.bottom - a.top == item_heights[i]
            &&& a.left == bounds.left && a.right == bounds.right && a.z == bounds.z
            &&& b.top - a.top == item_tops[j] - item_tops[i]
            &&& (n is Up && pp == item_tops[i]) ==> a.top == pivot_row
            &&& (n is Down && pp == item_tops[i] + item_heights[i] - 1) ==> a.bottom == pivot_row + 1
        }),
{
}

} // verus!
