//! Building larger yards from smaller ones: each combinator wraps a yard
//! (and sometimes a second one) in a new yard with a fresh random id.

use crate::bounds::{fits_i32, Cling};
use crate::layout::Yard;
use crate::link::random_id;
use crate::yards::{BeforeYard, ConfineYard, FadeYard, PackYard, PadYard, PlaceYard, Split};
use vstd::prelude::*;

verus! {

/// Packing a second yard beside or above a yard.
pub trait Pack: Sized {
    /// `top_yard` takes `rows` rows at the top; `self` takes the rest.
    fn pack_top<T: Yard>(self, rows: i32, top_yard: T) -> (r: PackYard<T, Self>)
        ensures
            r.first_yard == top_yard,
            r.second_yard == self,
            r.divide == Split::Top(rows),
    ;

    /// `bottom_yard` takes `rows` rows at the bottom; `self` takes the rest.
    fn pack_bottom<B: Yard>(self, rows: i32, bottom_yard: B) -> (r: PackYard<Self, B>)
        ensures
            r.first_yard == self,
            r.second_yard == bottom_yard,
            r.divide == Split::Bottom(rows),
    ;

    /// `right_yard` takes `cols` columns at the right; `self` takes the rest.
    fn pack_right<R: Yard>(self, cols: i32, right_yard: R) -> (r: PackYard<Self, R>)
        ensures
            r.first_yard == self,
            r.second_yard == right_yard,
            r.divide == Split::Right(cols),
    ;

    /// `left_yard` takes `cols` columns at the left; `self` takes the rest.
    fn pack_left<L: Yard>(self, cols: i32, left_yard: L) -> (r: PackYard<L, Self>)
        ensures
            r.first_yard == left_yard,
            r.second_yard == self,
            r.divide == Split::Left(cols),
    ;
}

impl<Y: Yard> Pack for Y {
    fn pack_top<T: Yard>(self, rows: i32, top_yard: T) -> (r: PackYard<T, Self>) {
        PackYard { id: random_id(), first_yard: top_yard, second_yard: self, divide: Split::Top(rows) }
    }

    fn pack_bottom<B: Yard>(self, rows: i32, bottom_yard: B) -> (r: PackYard<Self, B>) {
        PackYard { id: random_id(), first_yard: self, second_yard: bottom_yard, divide: Split::Bottom(rows) }
    }

    fn pack_right<R: Yard>(self, cols: i32, right_yard: R) -> (r: PackYard<Self, R>) {
        PackYard { id: random_id(), first_yard: self, second_yard: right_yard, divide: Split::Right(cols) }
    }

    fn pack_left<L: Yard>(self, cols: i32, left_yard: L) -> (r: PackYard<L, Self>) {
        PackYard { id: random_id(), first_yard: left_yard, second_yard: self, divide: Split::Left(cols) }
    }
}

/// Margins around a yard.
pub trait Padding: Sized {
    /// `size` rows above and below, and twice as many columns each side
    /// (a terminal cell is about twice as tall as it is wide).
    fn pad(self, size: i32) -> (r: PadYard<Self>)
        requires
            fits_i32(2 * size),
        ensures
            r.left_cols == 2 * size,
            r.right_cols == 2 * size,
            r.top_rows == size,
            r.bottom_rows == size,
            r.yard == self,
    ;

    /// `cols` columns each side and no rows.
    fn pad_cols(self, cols: i32) -> (r: PadYard<Self>)
        ensures
            r.left_cols == cols,
            r.right_cols == cols,
            r.top_rows == 0,
            r.bottom_rows == 0,
            r.yard == self,
    ;
}

impl<Y: Yard> Padding for Y {
    fn pad(self, size: i32) -> (r: PadYard<Self>) {
        let cols = size * 2;
        PadYard { id: random_id(), left_cols: cols, right_cols: cols, top_rows: size, bottom_rows: size, yard: self }
    }

    fn pad_cols(self, cols: i32) -> (r: PadYard<Self>) {
        PadYard { id: random_id(), left_cols: cols, right_cols: cols, top_rows: 0, bottom_rows: 0, yard: self }
    }
}

/// Placing a yard in a part of its region.
pub trait Confine: Sized {
    /// `height` rows of the full width.
    fn confine_height(self, height: i32, cling: Cling) -> (r: ConfineYard<Self>)
        ensures
            r.width is None,
            r.height == Some(height),
            r.cling == cling,
            r.yard == self,
    ;

    /// `width` columns of the full height.
    fn confine_width(self, width: i32, cling: Cling) -> (r: ConfineYard<Self>)
        ensures
            r.width == Some(width),
            r.height is None,
            r.cling == cling,
            r.yard == self,
    ;

    /// `width` columns and `height` rows.
    fn confine(self, width: i32, height: i32, cling: Cling) -> (r: ConfineYard<Self>)
        ensures
            r.width == Some(width),
            r.height == Some(height),
            r.cling == cling,
            r.yard == self,
    ;
}

impl<Y: Yard> Confine for Y {
    fn confine_height(self, height: i32, cling: Cling) -> (r: ConfineYard<Self>) {
        ConfineYard { id: random_id(), width: None, height: Some(height), cling, yard: self }
    }

    fn confine_width(self, width: i32, cling: Cling) -> (r: ConfineYard<Self>) {
        ConfineYard { id: random_id(), width: Some(width), height: None, cling, yard: self }
    }

    fn confine(self, width: i32, height: i32, cling: Cling) -> (r: ConfineYard<Self>) {
        ConfineYard { id: random_id(), width: Some(width), height: Some(height), cling, yard: self }
    }
}

/// Centring a yard across its region.
pub trait Place: Sized {
    fn place_center(self, width: i32) -> (r: PlaceYard<Self>)
        ensures
            r.width == width,
            r.core_yard == self,
    ;
}

impl<Y: Yard> Place for Y {
    fn place_center(self, width: i32) -> (r: PlaceYard<Self>) {
        PlaceYard { id: random_id(), width, core_yard: self }
    }
}

/// Drawing a yard in front of another.
pub trait Before: Sized {
    /// `self` in front of `far_yard`.
    fn before<F: Yard>(self, far_yard: F) -> (r: BeforeYard<Self, F>)
        ensures
            r.near_yard == self,
            r.far_yard == far_yard,
    ;
}

impl<Y: Yard> Before for Y {
    fn before<F: Yard>(self, far_yard: F) -> (r: BeforeYard<Self, F>) {
        BeforeYard { id: random_id(), near_yard: self, far_yard }
    }
}

/// Showing a yard over a darkened one.
pub trait Fade: Sized {
    /// `fore_yard` inset by `indents` (columns, rows) over `self`.
    fn fade<F: Yard>(self, indents: (i32, i32), fore_yard: F) -> (r: FadeYard<Self, F>)
        ensures
            r.indent_cols == indents.0,
            r.indent_rows == indents.1,
            r.rear_yard == self,
            r.fore_yard == fore_yard,
    ;
}

impl<Y: Yard> Fade for Y {
    fn fade<F: Yard>(self, indents: (i32, i32), fore_yard: F) -> (r: FadeYard<Self, F>) {
        FadeYard { id: random_id(), indent_cols: indents.0, indent_rows: indents.1, rear_yard: self, fore_yard }
    }
}

} // verus!
