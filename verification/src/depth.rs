//! Regions that span a range of depths, from `near` to `far`, and the hold
//! that stores them by index and assigns them to yards by id.

use crate::bounds::fits_i32;
use std::collections::HashMap;
use vstd::prelude::*;

verus! {

broadcast use vstd::std_specs::hash::group_hash_axioms;

/// A region `[left, right) x [top, bottom)` spanning depths `near` to `far`.
#[derive(Copy, Clone, Debug, PartialEq, Eq, Structural)]
pub struct Bounds {
    right: i32,
    bottom: i32,
    left: i32,
    top: i32,
    near: i32,
    far: i32,
}

impl Bounds {
    pub closed spec fn spec_right(self) -> i32 { self.right }
    pub closed spec fn spec_bottom(self) -> i32 { self.bottom }
    pub closed spec fn spec_left(self) -> i32 { self.left }
    pub closed spec fn spec_top(self) -> i32 { self.top }
    pub closed spec fn spec_near(self) -> i32 { self.near }
    pub closed spec fn spec_far(self) -> i32 { self.far }

    pub fn zero() -> (b: Bounds)
        ensures
            b.spec_right() == 0 && b.spec_bottom() == 0 && b.spec_left() == 0,
            b.spec_top() == 0 && b.spec_near() == 0 && b.spec_far() == 0,
    {
        Bounds { right: 0, bottom: 0, left: 0, top: 0, near: 0, far: 0 }
    }

    pub fn new(width: i32, height: i32) -> (b: Bounds)
        ensures
            b.spec_right() == width && b.spec_bottom() == height && b.spec_left() == 0,
            b.spec_top() == 0 && b.spec_near() == 0 && b.spec_far() == 0,
    {
        Bounds { right: width, bottom: height, left: 0, top: 0, near: 0, far: 0 }
    }

    pub fn intersects(&self, row: i32, col: i32) -> (r: bool)
        ensures
            r == (self.spec_top() <= row < self.spec_bottom() && self.spec_left() <= col < self.spec_right()),
    {
        row >= self.top && row < self.bottom && col >= self.left && col < self.right
    }

    /// Shrinks the region by `rows` at top and bottom and `cols` at left and right.
    pub fn pack(&self, rows: i32, cols: i32) -> (b: Bounds)
        requires
            fits_i32(self.spec_right() - cols),
            fits_i32(self.spec_bottom() - rows),
            fits_i32(self.spec_left() + cols),
            fits_i32(self.spec_top() + rows),
        ensures
            b.spec_right() == self.spec_right() - cols,
            b.spec_bottom() == self.spec_bottom() - rows,
            b.spec_left() == self.spec_left() + cols,
            b.spec_top() == self.spec_top() + rows,
            b.spec_near() == self.spec_near(),
            b.spec_far() == self.spec_far(),
    {
        Bounds {
            right: self.right - cols,
            bottom: self.bottom - rows,
            left: self.left + cols,
            top: self.top + rows,
            near: self.near,
            far: self.far,
        }
    }
}

/// The regions produced so far, by index, and the index of each yard's region.
pub struct BoundsHold {
    holdings: Vec<Bounds>,
    map: HashMap<i32, usize>,
}

impl BoundsHold {
    pub closed spec fn spec_holdings(&self) -> Seq<Bounds> {
        self.holdings@
    }

    pub closed spec fn spec_map(&self) -> Map<i32, usize> {
        self.map@
    }

    pub fn new() -> (h: BoundsHold)
        ensures
            h.spec_holdings() == Seq::<Bounds>::empty(),
            h.spec_map() == Map::<i32, usize>::empty(),
    {
        BoundsHold { holdings: Vec::new(), map: HashMap::new() }
    }

    pub fn get_bounds(&self, bounds_index: usize) -> (b: &Bounds)
        requires
            bounds_index < self.spec_holdings().len(),
        ensures
            *b == self.spec_holdings()[bounds_index as int],
    {
        &self.holdings[bounds_index]
    }

    /// Adds a `width` x `height` region and returns its index.
    pub fn push_bounds(&mut self, width: i32, height: i32) -> (index: usize)
        ensures
            index == old(self).spec_holdings().len(),
            final(self).spec_holdings().len() == old(self).spec_holdings().len() + 1,
            final(self).spec_holdings().take(index as int) == old(self).spec_holdings(),
            final(self).spec_holdings()[index as int].spec_right() == width,
            final(self).spec_holdings()[index as int].spec_bottom() == height,
            final(self).spec_holdings()[index as int].spec_left() == 0,
            final(self).spec_holdings()[index as int].spec_top() == 0,
            final(self).spec_holdings()[index as int].spec_near() == 0,
            final(self).spec_holdings()[index as int].spec_far() == 0,
            final(self).spec_map() == old(self).spec_map(),
    {
        self.holdings.push(Bounds::new(width, height));
        self.holdings.len() - 1
    }

    pub fn get_yard_bounds(&self, yard_id: i32) -> (b: &Bounds)
        requires
            self.spec_map().contains_key(yard_id),
            self.spec_map()[yard_id] < self.spec_holdings().len(),
        ensures
            *b == self.spec_holdings()[self.spec_map()[yard_id] as int],
    {
        let bounds_index = *self.map.get(&yard_id).unwrap();
        &self.holdings[bounds_index]
    }

    pub fn insert_yard_bounds(&mut self, yard_id: i32, bounds_index: usize)
        ensures
            final(self).spec_holdings() == old(self).spec_holdings(),
            final(self).spec_map() == old(self).spec_map().insert(yard_id, bounds_index),
    {
        self.map.insert(yard_id, bounds_index);
    }
}

} // verus!
