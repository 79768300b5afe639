//! Rectangular regions of the screen, with a depth `z` (smaller is nearer
//! to the viewer), and the hold that stores the regions produced by a layout.

use std::collections::HashMap;
use vstd::prelude::*;

verus! {

broadcast use vstd::std_specs::hash::group_hash_axioms;

/// Whether a mathematical integer is representable as an `i32`.
pub open spec fn fits_i32(x: int) -> bool {
    i32::MIN <= x <= i32::MAX
}

pub open spec fn min_int(a: int, b: int) -> int {
    if a <= b { a } else { b }
}

pub open spec fn max_int(a: int, b: int) -> int {
    if a >= b { a } else { b }
}

/// Signed length of the intersection of the target span with the origin span.
/// A negative value is the size of the gap between spans that do not meet.
pub open spec fn spec_overlap(origin_start: int, origin_end: int, target_start: int, target_end: int) -> int {
    if target_end < origin_start {
        target_end - origin_start
    } else {
        min_int(origin_end, target_end) - max_int(origin_start, target_start)
    }
}

/// The arithmetic of `Bounds::overlap` stays within `i32`.
pub open spec fn overlap_fits(origin_start: int, origin_end: int, target_start: int, target_end: int) -> bool {
    if target_end < origin_start {
        origin_start - target_end <= i32::MAX
    } else if target_end > origin_end && target_start >= origin_start && target_start > origin_end {
        target_start - origin_end <= i32::MAX
    } else {
        fits_i32(spec_overlap(origin_start, origin_end, target_start, target_end))
    }
}


/// Where a smaller region clings within a larger one.
#[derive(Copy, Clone, Debug, PartialEq, Eq, Structural)]
pub enum Cling {
    Center,
    Top,
    Bottom,
    Left,
    LeftTop,
    LeftBottom,
    Right,
    RightTop,
    RightBottom,
}

impl Cling {
    /// The horizontal position, in halves: 0 at the left edge, 1 centered, 2 at the right edge.
    pub open spec fn spec_x_halves(self) -> int {
        match self {
            Cling::Left | Cling::LeftTop | Cling::LeftBottom => 0,
            Cling::Center | Cling::Top | Cling::Bottom => 1,
            Cling::Right | Cling::RightTop | Cling::RightBottom => 2,
        }
    }

    /// The vertical position, in halves: 0 at the top edge, 1 centered, 2 at the bottom edge.
    pub open spec fn spec_y_halves(self) -> int {
        match self {
            Cling::Top | Cling::RightTop | Cling::LeftTop => 0,
            Cling::Center | Cling::Left | Cling::Right => 1,
            Cling::Bottom | Cling::LeftBottom | Cling::RightBottom => 2,
        }
    }

    pub fn x_halves(&self) -> (r: i32)
        ensures
            r == self.spec_x_halves(),
    {
        match self {
            Cling::Left | Cling::LeftTop | Cling::LeftBottom => 0,
            Cling::Center | Cling::Top | Cling::Bottom => 1,
            Cling::Right | Cling::RightTop | Cling::RightBottom => 2,
        }
    }

    pub fn y_halves(&self) -> (r: i32)
        ensures
            r == self.spec_y_halves(),
    {
        match self {
            Cling::Top | Cling::RightTop | Cling::LeftTop => 0,
            Cling::Center | Cling::Left | Cling::Right => 1,
            Cling::Bottom | Cling::LeftBottom | Cling::RightBottom => 2,
        }
    }
}

/// `extra` scaled by `halves / 2`, rounded toward zero.
pub open spec fn scale_halves(extra: int, halves: int) -> int {
    if extra >= 0 {
        (extra * halves) / 2
    } else {
        -(((-extra) * halves) / 2)
    }
}

/// The largest magnitude of a spare extent that a cling fraction scales
/// exactly in single precision.
pub open spec fn exact_extra() -> int {
    0x100_0000
}

pub fn scale_by_halves(extra: i32, halves: i32) -> (r: i32)
    requires
        -exact_extra() <= extra <= exact_extra(),
        0 <= halves <= 2,
    ensures
        r == scale_halves(extra as int, halves as int),
{
    let magnitude: i32 = if extra >= 0 { extra } else { -extra };
    let scaled: i32 = if halves == 0 {
        0
    } else if halves == 1 {
        magnitude / 2
    } else {
        magnitude
    };
    proof {
        let m = magnitude as int;
        let h = halves as int;
        assert(m * h == if h == 0 { 0 } else if h == 1 { m } else { 2 * m }) by (nonlinear_arith)
            requires
                0 <= h <= 2,
        ;
    }
    if extra >= 0 { scaled } else { -scaled }
}

/// A region `[left, right) x [top, bottom)` at depth `z`.
#[derive(Copy, Clone, Debug, PartialEq, Eq, Structural)]
pub struct Bounds {
    pub right: i32,
    pub bottom: i32,
    pub left: i32,
    pub top: i32,
    pub z: i32,
}

/// The four directions in which focus can travel from one region to another.
#[derive(Copy, Clone, Debug, PartialEq, Eq, Structural)]
pub enum Direction {
    Up,
    Down,
    Left,
    Right,
}

impl Bounds {
    pub open spec fn spec_width(self) -> int {
        self.right - self.left
    }

    pub open spec fn spec_height(self) -> int {
        self.bottom - self.top
    }

    pub open spec fn spec_intersects(self, row: int, col: int) -> bool {
        self.top <= row < self.bottom && self.left <= col < self.right
    }

    pub open spec fn spec_x_overlap(self, target: Bounds) -> int {
        spec_overlap(self.left as int, self.right as int, target.left as int, target.right as int)
    }

    pub open spec fn spec_y_overlap(self, target: Bounds) -> int {
        spec_overlap(self.top as int, self.bottom as int, target.top as int, target.bottom as int)
    }

    /// How far a candidate region lies from `start` in the given direction,
    /// less how much the two overlap across that direction. Smaller is closer.
    pub open spec fn spec_rank(self, dir: Direction, start: Bounds) -> int {
        match dir {
            Direction::Up => (start.top - self.bottom) - start.spec_x_overlap(self),
            Direction::Down => (self.top - start.bottom) - start.spec_x_overlap(self),
            Direction::Left => (start.left - self.right) - start.spec_y_overlap(self),
            Direction::Right => (self.left - start.right) - start.spec_y_overlap(self),
        }
    }

    /// The arithmetic of the rank in `dir` stays within `i32`.
    pub open spec fn rank_fits(self, dir: Direction, start: Bounds) -> bool {
        match dir {
            Direction::Up | Direction::Down => {
                &&& overlap_fits(start.left as int, start.right as int, self.left as int, self.right as int)
                &&& fits_i32(if dir == Direction::Up { start.top - self.bottom } else { self.top - start.bottom })
                &&& fits_i32(self.spec_rank(dir, start))
            },
            Direction::Left | Direction::Right => {
                &&& overlap_fits(start.top as int, start.bottom as int, self.top as int, self.bottom as int)
                &&& fits_i32(if dir == Direction::Left { start.left - self.right } else { self.left - start.right })
                &&& fits_i32(self.spec_rank(dir, start))
            },
        }
    }

    /// Whether this region lies entirely on the `dir` side of `origin`.
    pub open spec fn spec_lies(self, dir: Direction, origin: Bounds) -> bool {
        match dir {
            Direction::Up => self.bottom <= origin.top,
            Direction::Down => self.top >= origin.bottom,
            Direction::Left => self.right <= origin.left,
            Direction::Right => self.left >= origin.right,
        }
    }

    pub fn new(width: i32, height: i32) -> (b: Bounds)
        ensures
            b == (Bounds { right: width, bottom: height, left: 0, top: 0, z: 0 }),
    {
        Bounds { right: width, bottom: height, left: 0, top: 0, z: 0 }
    }

    pub fn width(&self) -> (w: i32)
        requires
            fits_i32(self.spec_width()),
        ensures
            w == self.spec_width(),
    {
        self.right - self.left
    }

    pub fn height(&self) -> (h: i32)
        requires
            fits_i32(self.spec_height()),
        ensures
            h == self.spec_height(),
    {
        self.bottom - self.top
    }

    pub fn intersects(&self, row: i32, col: i32) -> (r: bool)
        ensures
            r == self.spec_intersects(row as int, col as int),
    {
        row >= self.top && row < self.bottom && col >= self.left && col < self.right
    }

    /// Shrinks each edge inward by the given amount, keeping the depth.
    pub fn pad(&self, left_cols: i32, right_cols: i32, top_rows: i32, bottom_rows: i32) -> (b: Bounds)
        requires
            fits_i32(self.right - right_cols),
            fits_i32(self.bottom - bottom_rows),
            fits_i32(self.left + left_cols),
            fits_i32(self.top + top_rows),
        ensures
            b.right == self.right - right_cols,
            b.bottom == self.bottom - bottom_rows,
            b.left == self.left + left_cols,
            b.top == self.top + top_rows,
            b.z == self.z,
    {
        Bounds {
            right: self.right - right_cols,
            bottom: self.bottom - bottom_rows,
            left: self.left + left_cols,
            top: self.top + top_rows,
            z: self.z,
        }
    }

    /// The part of this region `width` x `height` in size that clings where
    /// `cling` says: the spare columns and rows are split by the cling's
    /// position, the share before it rounded toward zero.
    pub fn confine(&self, width: i32, height: i32, cling: Cling) -> (b: Bounds)
        requires
            self.confine_ok(width as int, height as int, cling),
        ensures
            b == self.spec_confine(width as int, height as int, cling),
    {
        let extra_width = self.width() - width;
        let extra_height = self.height() - height;
        let top_extra = scale_by_halves(extra_height, cling.y_halves());
        let bottom_extra = extra_height - top_extra;
        let left_extra = scale_by_halves(extra_width, cling.x_halves());
        let right_extra = extra_width - left_extra;
        Bounds {
            right: self.right - right_extra,
            bottom: self.bottom - bottom_extra,
            left: self.left + left_extra,
            top: self.top + top_extra,
            z: self.z,
        }
    }

    pub open spec fn spec_confine(self, width: int, height: int, cling: Cling) -> Bounds {
        let extra_width = self.spec_width() - width;
        let extra_height = self.spec_height() - height;
        let top_extra = scale_halves(extra_height, cling.spec_y_halves());
        let left_extra = scale_halves(extra_width, cling.spec_x_halves());
        Bounds {
            right: (self.right - (extra_width - left_extra)) as i32,
            bottom: (self.bottom - (extra_height - top_extra)) as i32,
            left: (self.left + left_extra) as i32,
            top: (self.top + top_extra) as i32,
            z: self.z,
        }
    }

    /// `confine` overflows nothing, and its spare extents are within the
    /// range that the cling fraction scales exactly.
    pub open spec fn confine_ok(self, width: int, height: int, cling: Cling) -> bool {
        let extra_width = self.spec_width() - width;
        let extra_height = self.spec_height() - height;
        &&& fits_i32(self.spec_width())
        &&& fits_i32(self.spec_height())
        &&& -exact_extra() <= extra_width <= exact_extra()
        &&& -exact_extra() <= extra_height <= exact_extra()
        &&& fits_i32(self.right - (extra_width - scale_halves(extra_width, cling.spec_x_halves())))
        &&& fits_i32(self.bottom - (extra_height - scale_halves(extra_height, cling.spec_y_halves())))
        &&& fits_i32(self.left + scale_halves(extra_width, cling.spec_x_halves()))
        &&& fits_i32(self.top + scale_halves(extra_height, cling.spec_y_halves()))
    }

    pub fn with_z(&self, z: i32) -> (b: Bounds)
        ensures
            b == (Bounds { z, ..*self }),
    {
        let mut new = *self;
        new.z = z;
        new
    }

    pub fn is_above(&self, other: &Bounds) -> (r: bool)
        ensures
            r == self.spec_lies(Direction::Up, *other),
    {
        self.bottom <= other.top
    }

    pub fn is_below(&self, other: &Bounds) -> (r: bool)
        ensures
            r == self.spec_lies(Direction::Down, *other),
    {
        self.top >= other.bottom
    }

    pub fn is_left_of(&self, other: &Bounds) -> (r: bool)
        ensures
            r == self.spec_lies(Direction::Left, *other),
    {
        self.right <= other.left
    }

    pub fn is_right_of(&self, other: &Bounds) -> (r: bool)
        ensures
            r == self.spec_lies(Direction::Right, *other),
    {
        self.left >= other.right
    }

    /// Whether this region lies on the `dir` side of `origin`.
    pub fn lies(&self, dir: Direction, origin: &Bounds) -> (r: bool)
        ensures
            r == self.spec_lies(dir, *origin),
    {
        match dir {
            Direction::Up => self.is_above(origin),
            Direction::Down => self.is_below(origin),
            Direction::Left => self.is_left_of(origin),
            Direction::Right => self.is_right_of(origin),
        }
    }

    pub fn up_rank(&self, start: &Bounds) -> (r: i32)
        requires
            self.rank_fits(Direction::Up, *start),
        ensures
            r == self.spec_rank(Direction::Up, *start),
    {
        let distance = start.top - self.bottom;
        let overlap = start.x_overlap(self);
        distance - overlap
    }

    pub fn down_rank(&self, start: &Bounds) -> (r: i32)
        requires
            self.rank_fits(Direction::Down, *start),
        ensures
            r == self.spec_rank(Direction::Down, *start),
    {
        let distance = self.top - start.bottom;
        let overlap = start.x_overlap(self);
        distance - overlap
    }

    pub fn left_rank(&self, start: &Bounds) -> (r: i32)
        requires
            self.rank_fits(Direction::Left, *start),
        ensures
            r == self.spec_rank(Direction::Left, *start),
    {
        let distance = start.left - self.right;
        let overlap = start.y_overlap(self);
        distance - overlap
    }

    pub fn right_rank(&self, start: &Bounds) -> (r: i32)
        requires
            self.rank_fits(Direction::Right, *start),
        ensures
            r == self.spec_rank(Direction::Right, *start),
    {
        let distance = self.left - start.right;
        let overlap = start.y_overlap(self);
        distance - overlap
    }

    /// The rank of this region as a focus target from `start` in `dir`.
    /// Whether the rank of this region in `dir` from `start` can be
    /// computed within `i32`.
    pub fn rank_in_range(&self, dir: Direction, start: &Bounds) -> (r: bool)
        ensures
            r == self.rank_fits(dir, *start),
    {
        let (os, oe, ts, te, gap): (i64, i64, i64, i64, i64) = match dir {
            Direction::Up => (
                start.left as i64,
                start.right as i64,
                self.left as i64,
                self.right as i64,
                start.top as i64 - self.bottom as i64,
            ),
            Direction::Down => (
                start.left as i64,
                start.right as i64,
                self.left as i64,
                self.right as i64,
                self.top as i64 - start.bottom as i64,
            ),
            Direction::Left => (
                start.top as i64,
                start.bottom as i64,
                self.top as i64,
                self.bottom as i64,
                start.left as i64 - self.right as i64,
            ),
            Direction::Right => (
                start.top as i64,
                start.bottom as i64,
                self.top as i64,
                self.bottom as i64,
                self.left as i64 - start.right as i64,
            ),
        };
        let lo: i64 = i32::MIN as i64;
        let hi: i64 = i32::MAX as i64;
        let overlap: i64 = if te < os {
            te - os
        } else {
            let end: i64 = if oe <= te { oe } else { te };
            let begin: i64 = if os >= ts { os } else { ts };
            end - begin
        };
        let overlap_ok = if te < os {
            os - te <= hi
        } else if te > oe && ts >= os && ts > oe {
            ts - oe <= hi
        } else {
            lo <= overlap && overlap <= hi
        };
        let rank: i64 = gap - overlap;
        overlap_ok && lo <= gap && gap <= hi && lo <= rank && rank <= hi
    }

    pub fn rank(&self, dir: Direction, start: &Bounds) -> (r: i32)
        requires
            self.rank_fits(dir, *start),
        ensures
            r == self.spec_rank(dir, *start),
    {
        match dir {
            Direction::Up => self.up_rank(start),
            Direction::Down => self.down_rank(start),
            Direction::Left => self.left_rank(start),
            Direction::Right => self.right_rank(start),
        }
    }

    fn x_overlap(&self, target: &Bounds) -> (r: i32)
        requires
            overlap_fits(self.left as int, self.right as int, target.left as int, target.right as int),
        ensures
            r == self.spec_x_overlap(*target),
    {
        Bounds::overlap(self.left, self.right, target.left, target.right)
    }

    fn y_overlap(&self, target: &Bounds) -> (r: i32)
        requires
            overlap_fits(self.top as int, self.bottom as int, target.top as int, target.bottom as int),
        ensures
            r == self.spec_y_overlap(*target),
    {
        Bounds::overlap(self.top, self.bottom, target.top, target.bottom)
    }

    fn overlap(origin_start: i32, origin_end: i32, target_start: i32, target_end: i32) -> (r: i32)
        requires
            overlap_fits(origin_start as int, origin_end as int, target_start as int, target_end as int),
        ensures
            r == spec_overlap(origin_start as int, origin_end as int, target_start as int, target_end as int),
    {
        if target_end < origin_start {
            -(origin_start - target_end)
        } else if target_end <= origin_end {
            if target_start < origin_start {
                target_end - origin_start
            } else {
                target_end - target_start
            }
        } else {
            if target_start < origin_start {
                origin_end - origin_start
            } else if target_start <= origin_end {
                origin_end - target_start
            } else {
                -(target_start - origin_end)
            }
        }
    }

    /// The region `height` rows tall whose top is `rows_from_top` rows below this top.
    pub fn set_height_from_above(&self, rows_from_top: i32, height: i32) -> (b: Bounds)
        requires
            fits_i32(self.top + rows_from_top),
            fits_i32(self.top + rows_from_top + height),
        ensures
            b == (Bounds { top: (self.top + rows_from_top) as i32, bottom: (self.top + rows_from_top + height) as i32, ..*self }),
    {
        let top = self.top + rows_from_top;
        Bounds { top, bottom: top + height, ..*self }
    }

    /// The region `height` rows tall whose bottom is `rows_from_bottom` rows above this bottom.
    pub fn set_height_from_below(&self, rows_from_bottom: i32, height: i32) -> (b: Bounds)
        requires
            fits_i32(self.bottom - rows_from_bottom),
            fits_i32(self.bottom - rows_from_bottom - height),
        ensures
            b == (Bounds { bottom: (self.bottom - rows_from_bottom) as i32, top: (self.bottom - rows_from_bottom - height) as i32, ..*self }),
    {
        let bottom = self.bottom - rows_from_bottom;
        Bounds { bottom, top: bottom - height, ..*self }
    }

    /// Splits off `right_cols` columns at the right edge; the split never
    /// passes the left edge.
    pub fn split_from_right(&self, right_cols: i32) -> (r: (Bounds, Bounds))
        requires
            fits_i32(self.right - right_cols),
        ensures
            r.0 == (Bounds { right: max_int(self.right - right_cols, self.left as int) as i32, ..*self }),
            r.1 == (Bounds { left: max_int(self.right - right_cols, self.left as int) as i32, ..*self }),
    {
        let cut = self.right - right_cols;
        let center = if cut >= self.left { cut } else { self.left };
        self.split_center(center)
    }

    /// Splits off `bottom_rows` rows at the bottom edge; the split never
    /// passes the top edge.
    pub fn split_from_bottom(&self, bottom_rows: i32) -> (r: (Bounds, Bounds))
        requires
            fits_i32(self.bottom - bottom_rows),
        ensures
            r.0 == (Bounds { bottom: max_int(self.bottom - bottom_rows, self.top as int) as i32, ..*self }),
            r.1 == (Bounds { top: max_int(self.bottom - bottom_rows, self.top as int) as i32, ..*self }),
    {
        let cut = self.bottom - bottom_rows;
        let middle = if cut >= self.top { cut } else { self.top };
        self.split_middle(middle)
    }

    /// Splits off `top_rows` rows at the top edge; the split never passes
    /// the bottom edge.
    pub fn split_from_top(&self, top_rows: i32) -> (r: (Bounds, Bounds))
        requires
            fits_i32(self.top + top_rows),
        ensures
            r.0 == (Bounds { bottom: min_int(self.top + top_rows, self.bottom as int) as i32, ..*self }),
            r.1 == (Bounds { top: min_int(self.top + top_rows, self.bottom as int) as i32, ..*self }),
    {
        let cut = self.top + top_rows;
        let middle = if cut <= self.bottom { cut } else { self.bottom };
        self.split_middle(middle)
    }

    fn split_middle(&self, middle: i32) -> (r: (Bounds, Bounds))
        ensures
            r.0 == (Bounds { bottom: middle, ..*self }),
            r.1 == (Bounds { top: middle, ..*self }),
    {
        let top = Bounds { bottom: middle, ..*self };
        let bottom = Bounds { top: middle, ..*self };
        (top, bottom)
    }

    fn split_center(&self, center: i32) -> (r: (Bounds, Bounds))
        ensures
            r.0 == (Bounds { right: center, ..*self }),
            r.1 == (Bounds { left: center, ..*self }),
    {
        let left = Bounds { right: center, ..*self };
        let right = Bounds { left: center, ..*self };
        (left, right)
    }
}

/// Every region that a layout produces, by index, and the region of each yard by id.
#[derive(Debug)]
pub struct BoundsHold {
    holdings: Vec<Bounds>,
    map: HashMap<i32, usize>,
}

impl BoundsHold {
    /// The regions held, in the order they were pushed.
    pub closed spec fn spec_holdings(&self) -> Seq<Bounds> {
        self.holdings@
    }

    /// The index of the region assigned to each yard id.
    pub closed spec fn spec_map(&self) -> Map<i32, usize> {
        self.map@
    }

    /// Creates a hold whose only region is the root `width` x `height` region,
    /// and returns the root's index with it.
    pub fn init(width: i32, height: i32) -> (r: (usize, BoundsHold))
        ensures
            r.0 == 0,
            r.1.spec_holdings() == seq![Bounds { right: width, bottom: height, left: 0, top: 0, z: 0 }],
            r.1.spec_map() == Map::<i32, usize>::empty(),
    {
        let mut init_hold = BoundsHold::new();
        let init_index = init_hold.push_root(width, height);
        (init_index, init_hold)
    }

    pub fn new() -> (h: BoundsHold)
        ensures
            h.spec_holdings() == Seq::<Bounds>::empty(),
            h.spec_map() == Map::<i32, usize>::empty(),
    {
        BoundsHold { holdings: Vec::new(), map: HashMap::new() }
    }

    pub fn bounds(&self, bounds_index: usize) -> (b: Bounds)
        requires
            bounds_index < self.spec_holdings().len(),
        ensures
            b == self.spec_holdings()[bounds_index as int],
    {
        self.holdings[bounds_index]
    }

    pub fn push_root(&mut self, width: i32, height: i32) -> (index: usize)
        ensures
            index == old(self).spec_holdings().len(),
            final(self).spec_holdings() == old(self).spec_holdings().push(Bounds { right: width, bottom: height, left: 0, top: 0, z: 0 }),
            final(self).spec_map() == old(self).spec_map(),
    {
        self.push_bounds(&Bounds::new(width, height))
    }

    pub fn push_bounds(&mut self, bounds: &Bounds) -> (index: usize)
        ensures
            index == old(self).spec_holdings().len(),
            final(self).spec_holdings() == old(self).spec_holdings().push(*bounds),
            final(self).spec_map() == old(self).spec_map(),
    {
        self.holdings.push(*bounds);
        self.holdings.len() - 1
    }

    /// Whether a region is recorded for yard `id`.
    pub fn has_region_for(&self, id: i32) -> (r: bool)
        ensures
            r == (self.spec_map().contains_key(id) && self.spec_map()[id] < self.spec_holdings().len()),
    {
        match self.map.get(&id) {
            Some(index) => *index < self.holdings.len(),
            None => false,
        }
    }

    pub fn yard_bounds(&self, id: i32) -> (b: &Bounds)
        requires
            self.spec_map().contains_key(id),
            self.spec_map()[id] < self.spec_holdings().len(),
        ensures
            *b == self.spec_holdings()[self.spec_map()[id] as int],
    {
        let bounds_index = *self.map.get(&id).unwrap();
        &self.holdings[bounds_index]
    }

    pub fn insert_yard_bounds(&mut self, id: i32, bounds_index: usize)
        ensures
            final(self).spec_holdings() == old(self).spec_holdings(),
            final(self).spec_map() == old(self).spec_map().insert(id, bounds_index),
    {
        self.map.insert(id, bounds_index);
    }
}

/// The overlap of two spans does not depend on which way the axis runs:
/// mirroring both spans leaves it as it was.
pub proof fn lemma_overlap_mirrored(origin_start: int, origin_end: int, target_start: int, target_end: int)
    requires
        origin_start <= origin_end,
        target_start <= target_end,
    ensures
        spec_overlap(origin_start, origin_end, target_start, target_end) == spec_overlap(
            -origin_end,
            -origin_start,
            -target_end,
            -target_start,
        ),
{
}

/// Spans that meet overlap by the length they share; spans that do not meet
/// overlap by minus the gap between them, on whichever side the target lies.
pub proof fn lemma_overlap_measures(origin_start: int, origin_end: int, target_start: int, target_end: int)
    requires
        origin_start <= origin_end,
        target_start <= target_end,
    ensures
        target_end < origin_start ==> spec_overlap(origin_start, origin_end, target_start, target_end) == -(
        origin_start - target_end),
        target_start > origin_end ==> spec_overlap(origin_start, origin_end, target_start, target_end) == -(
        target_start - origin_end),
        (target_end < origin_start || target_start > origin_end) ==> spec_overlap(
            origin_start,
            origin_end,
            target_start,
            target_end,
        ) < 0,
        origin_start <= target_end && target_start <= origin_end ==> {
            &&& 0 <= spec_overlap(origin_start, origin_end, target_start, target_end)
            &&& spec_overlap(origin_start, origin_end, target_start, target_end) <= origin_end - origin_start
            &&& spec_overlap(origin_start, origin_end, target_start, target_end) <= target_end - target_start
            &&& spec_overlap(origin_start, origin_end, target_start, target_end) == min_int(origin_end, target_end)
                - max_int(origin_start, target_start)
        },
{
}

impl Bounds {
    /// A confined part has the size asked for and clings as its name says:
    /// `Left`-named clings keep the left edge, `Right`-named ones the right
    /// edge, and the others centre it, the spare columns split within one;
    /// likewise `Top`-named clings keep the top edge, `Bottom`-named ones the
    /// bottom edge, and the others centre it.
    pub proof fn lemma_confine_clings(self, width: int, height: int, cling: Cling)
        requires
            self.confine_ok(width, height, cling),
        ensures
            ({
                let c = self.spec_confine(width, height, cling);
                let spare_left = c.left - self.left;
                let spare_right = self.right - c.right;
                let spare_top = c.top - self.top;
                let spare_bottom = self.bottom - c.bottom;
                &&& c.right - c.left == width
                &&& c.bottom - c.top == height
                &&& c.z == self.z
                &&& match cling {
                    Cling::Left | Cling::LeftTop | Cling::LeftBottom => spare_left == 0,
                    Cling::Right | Cling::RightTop | Cling::RightBottom => spare_right == 0,
                    _ => -1 <= spare_right - spare_left <= 1,
                }
                &&& match cling {
                    Cling::Top | Cling::LeftTop | Cling::RightTop => spare_top == 0,
                    Cling::Bottom | Cling::LeftBottom | Cling::RightBottom => spare_bottom == 0,
                    _ => -1 <= spare_bottom - spare_top <= 1,
                }
            }),
    {
    }
}

/// How far `b` lies from `start` in `dir`: the rows or columns between
/// them.
pub open spec fn gap_in(b: Bounds, dir: Direction, start: Bounds) -> int {
    match dir {
        Direction::Up => start.top - b.bottom,
        Direction::Down => b.top - start.bottom,
        Direction::Left => start.left - b.right,
        Direction::Right => b.left - start.right,
    }
}

/// How far `b` lies alongside `start` across `dir`: the columns (for up
/// and down) or rows (for left and right) the two share, or minus the gap
/// between them.
pub open spec fn alongside(b: Bounds, dir: Direction, start: Bounds) -> int {
    match dir {
        Direction::Up | Direction::Down => spec_overlap(start.left as int, start.right as int, b.left as int, b.right as int),
        Direction::Left | Direction::Right => spec_overlap(start.top as int, start.bottom as int, b.top as int, b.bottom as int),
    }
}

/// Ranks order regions by nearness: one no farther in the direction and no
/// less alongside ranks no worse, and a rank falls by one for each row or
/// column nearer and for each one more shared. So a region that shares
/// columns with the start outranks one at the same distance that shares
/// none.
pub proof fn lemma_rank_orders(a: Bounds, b: Bounds, dir: Direction, start: Bounds)
    requires
        start.left <= start.right,
        start.top <= start.bottom,
        a.left <= a.right,
        a.top <= a.bottom,
        b.left <= b.right,
        b.top <= b.bottom,
    ensures
        a.spec_rank(dir, start) - b.spec_rank(dir, start) == (gap_in(a, dir, start) - gap_in(b, dir, start)) - (
        alongside(a, dir, start) - alongside(b, dir, start)),
        gap_in(a, dir, start) <= gap_in(b, dir, start) && alongside(a, dir, start) >= alongside(b, dir, start)
            ==> a.spec_rank(dir, start) <= b.spec_rank(dir, start),
        gap_in(a, dir, start) == gap_in(b, dir, start) && alongside(a, dir, start) >= 0 && alongside(b, dir, start)
            < 0 ==> a.spec_rank(dir, start) < b.spec_rank(dir, start),
{
}

} // verus!
