//! Layout: yards claim regions of the screen. A layout context holds every
//! region pushed so far, the region a yard is laid out in (its edge), the
//! region assigned to each yard, and the foci that yards offer.

use crate::bounds::{min_int, Bounds, BoundsHold};
use crate::focus::Focus;
use crate::screen::SpotStack;
use vstd::prelude::*;

verus! {

/// The state of one layout pass.
#[derive(Debug)]
pub struct LayoutContext {
    hold: BoundsHold,
    index: usize,
    foci: Vec<Focus>,
    trapping: bool,
    trapped: Option<Focus>,
    focus_max: i32,
}

impl LayoutContext {
    pub closed spec fn spec_holdings(&self) -> Seq<Bounds> {
        self.hold.spec_holdings()
    }

    pub closed spec fn spec_yard_map(&self) -> Map<i32, usize> {
        self.hold.spec_map()
    }

    /// The index of the edge region.
    pub closed spec fn spec_index(&self) -> usize {
        self.index
    }

    /// The foci offered so far.
    pub closed spec fn spec_foci(&self) -> Seq<Focus> {
        self.foci@
    }

    /// Whether foci offered now are caught instead of added.
    pub closed spec fn spec_trapping(&self) -> bool {
        self.trapping
    }

    /// The last focus caught while trapping.
    pub closed spec fn spec_trapped(&self) -> Option<Focus> {
        self.trapped
    }

    /// The farthest depth at which a focus may still be taken.
    pub closed spec fn spec_focus_max(&self) -> i32 {
        self.focus_max
    }

    /// The edge region exists.
    pub open spec fn wf(&self) -> bool {
        self.spec_index() < self.spec_holdings().len()
    }

    /// The edge region.
    pub open spec fn spec_edge(&self) -> Bounds {
        self.spec_holdings()[self.spec_index() as int]
    }

    /// `self` is `earlier` after more layout: the regions of `earlier` are
    /// kept at their indices, the edge and trapping are as before, and no
    /// focus was added while trapping.
    pub open spec fn grew_from(&self, earlier: LayoutContext) -> bool {
        &&& earlier.spec_holdings().len() <= self.spec_holdings().len()
        &&& self.spec_holdings().take(earlier.spec_holdings().len() as int) == earlier.spec_holdings()
        &&& self.spec_index() == earlier.spec_index()
        &&& self.spec_trapping() == earlier.spec_trapping()
        &&& earlier.spec_trapping() ==> self.spec_foci() == earlier.spec_foci()
    }

    /// The foci, the caught focus and the focus limit of `self` are those
    /// of `earlier`.
    pub open spec fn kept_foci(&self, earlier: LayoutContext) -> bool {
        &&& self.spec_foci() == earlier.spec_foci()
        &&& self.spec_trapped() == earlier.spec_trapped()
        &&& self.spec_focus_max() == earlier.spec_focus_max()
    }

    /// `self` is `earlier` after offering `focus`: caught when `earlier`
    /// was trapping, and added to the foci otherwise.
    pub open spec fn offered(&self, earlier: LayoutContext, focus: Focus) -> bool {
        &&& self.spec_focus_max() == earlier.spec_focus_max()
        &&& if earlier.spec_trapping() {
            self.spec_trapped() == Some(focus) && self.spec_foci() == earlier.spec_foci()
        } else {
            self.spec_trapped() == earlier.spec_trapped() && self.spec_foci() == earlier.spec_foci().push(focus)
        }
    }

    /// `self` is `earlier` after more layout whose last offer was `focus`:
    /// caught when trapping, and otherwise the last of the foci.
    pub open spec fn offered_last(&self, earlier: LayoutContext, focus: Focus) -> bool {
        if earlier.spec_trapping() {
            self.spec_trapped() == Some(focus)
        } else {
            self.spec_foci().len() > 0 && self.spec_foci().last() == focus
        }
    }

    /// A layout of a `width` x `height` screen: the root region is the edge.
    pub fn new(width: i32, height: i32) -> (ctx: LayoutContext)
        ensures
            ctx.wf(),
            ctx.spec_index() == 0,
            ctx.spec_holdings() == seq![Bounds { right: width, bottom: height, left: 0, top: 0, z: 0 }],
            ctx.spec_yard_map() == Map::<i32, usize>::empty(),
            ctx.spec_foci() == Seq::<Focus>::empty(),
            !ctx.spec_trapping(),
            ctx.spec_trapped() is None,
            ctx.spec_focus_max() == i32::MAX,
    {
        let (index, hold) = BoundsHold::init(width, height);
        LayoutContext { hold, index, foci: Vec::new(), trapping: false, trapped: None, focus_max: i32::MAX }
    }

    /// The edge region and its index.
    pub fn edge_bounds(&self) -> (r: (usize, Bounds))
        requires
            self.wf(),
        ensures
            r == (self.spec_index(), self.spec_edge()),
    {
        (self.index, self.hold.bounds(self.index))
    }

    pub fn current_index(&self) -> (r: usize)
        ensures
            r == self.spec_index(),
    {
        self.index
    }

    pub fn bounds(&self, index: usize) -> (b: Bounds)
        requires
            index < self.spec_holdings().len(),
        ensures
            b == self.spec_holdings()[index as int],
    {
        self.hold.bounds(index)
    }

    /// Makes region `index` the edge.
    pub fn set_edge(&mut self, index: usize)
        requires
            index < old(self).spec_holdings().len(),
        ensures
            final(self).spec_index() == index,
            final(self).spec_holdings() == old(self).spec_holdings(),
            final(self).spec_yard_map() == old(self).spec_yard_map(),
            final(self).spec_foci() == old(self).spec_foci(),
            final(self).spec_trapping() == old(self).spec_trapping(),
            final(self).spec_trapped() == old(self).spec_trapped(),
            final(self).spec_focus_max() == old(self).spec_focus_max(),
    {
        self.index = index;
    }

    /// Adds a region and returns its index.
    pub fn push_bounds(&mut self, bounds: &Bounds) -> (index: usize)
        ensures
            index == old(self).spec_holdings().len(),
            final(self).spec_holdings() == old(self).spec_holdings().push(*bounds),
            final(self).spec_yard_map() == old(self).spec_yard_map(),
            final(self).spec_index() == old(self).spec_index(),
            final(self).spec_foci() == old(self).spec_foci(),
            final(self).spec_trapping() == old(self).spec_trapping(),
            final(self).spec_trapped() == old(self).spec_trapped(),
            final(self).spec_focus_max() == old(self).spec_focus_max(),
            final(self).grew_from(*old(self)),
    {
        let index = self.hold.push_bounds(bounds);
        proof {
            assert(self.spec_holdings().take(old(self).spec_holdings().len() as int) =~= old(self).spec_holdings());
        }
        index
    }

    /// Assigns region `bounds_index` to yard `yard_id`.
    pub fn set_yard_bounds(&mut self, yard_id: i32, bounds_index: usize)
        ensures
            final(self).spec_holdings() == old(self).spec_holdings(),
            final(self).spec_yard_map() == old(self).spec_yard_map().insert(yard_id, bounds_index),
            final(self).spec_index() == old(self).spec_index(),
            final(self).spec_foci() == old(self).spec_foci(),
            final(self).spec_trapping() == old(self).spec_trapping(),
            final(self).spec_trapped() == old(self).spec_trapped(),
            final(self).spec_focus_max() == old(self).spec_focus_max(),
    {
        self.hold.insert_yard_bounds(yard_id, bounds_index);
    }

    /// Offers a focus: it is caught when trapping, and added otherwise.
    pub fn add_focus(&mut self, focus: Focus)
        ensures
            final(self).spec_holdings() == old(self).spec_holdings(),
            final(self).spec_yard_map() == old(self).spec_yard_map(),
            final(self).spec_index() == old(self).spec_index(),
            final(self).spec_trapping() == old(self).spec_trapping(),
            final(self).spec_focus_max() == old(self).spec_focus_max(),
            old(self).spec_trapping() ==> final(self).spec_trapped() == Some(focus) && final(self).spec_foci()
                == old(self).spec_foci(),
            !old(self).spec_trapping() ==> final(self).spec_trapped() == old(self).spec_trapped()
                && final(self).spec_foci() == old(self).spec_foci().push(focus),
    {
        if self.trapping {
            self.trapped = Some(focus);
        } else {
            self.foci.push(focus);
        }
    }

    /// Limits focus to regions no farther back than `z`.
    pub fn set_focus_max(&mut self, z: i32)
        ensures
            final(self).spec_holdings() == old(self).spec_holdings(),
            final(self).spec_yard_map() == old(self).spec_yard_map(),
            final(self).spec_index() == old(self).spec_index(),
            final(self).spec_foci() == old(self).spec_foci(),
            final(self).spec_trapping() == old(self).spec_trapping(),
            final(self).spec_trapped() == old(self).spec_trapped(),
            final(self).spec_focus_max() == z,
    {
        self.focus_max = z;
    }

    pub fn focus_max(&self) -> (r: i32)
        ensures
            r == self.spec_focus_max(),
    {
        self.focus_max
    }

    pub fn foci(&self) -> (r: &Vec<Focus>)
        ensures
            r@ == self.spec_foci(),
    {
        &self.foci
    }

    pub fn hold(&self) -> (r: &BoundsHold)
        ensures
            r.spec_holdings() == self.spec_holdings(),
            r.spec_map() == self.spec_yard_map(),
    {
        &self.hold
    }

    /// Ends the layout, handing over its regions.
    pub fn release_hold(self) -> (r: BoundsHold)
        ensures
            r.spec_holdings() == self.spec_holdings(),
            r.spec_map() == self.spec_yard_map(),
    {
        self.hold
    }

    /// Lays `yard` out with region `index` as its edge, catching its foci
    /// when `trap` is set; returns the index of the region the yard ends in
    /// and, when trapping, the focus it offered last. The edge and trapping
    /// are restored afterwards.
    pub fn layout_at<Y: Yard>(&mut self, yard: &Y, index: usize, trap: bool) -> (r: (usize, Option<Focus>))
        requires
            old(self).wf(),
            index < old(self).spec_holdings().len(),
        ensures
            final(self).wf(),
            final(self).grew_from(*old(self)),
            r.0 < final(self).spec_holdings().len(),
            !trap ==> r.1 is None,
            trap ==> final(self).spec_foci() == old(self).spec_foci(),
            laid_at(yard, *old(self), index, trap, *final(self), r.0, r.1),
    {
        let saved_index = self.index;
        let saved_trapping = self.trapping;
        let saved_trapped = self.trapped;
        self.index = index;
        if trap {
            self.trapping = true;
            self.trapped = None;
        }
        let ghost inner = *self;
        let out = yard.layout(self);
        let ghost inner_after = *self;
        let caught = if trap { self.trapped } else { None };
        self.index = saved_index;
        self.trapping = saved_trapping;
        if trap {
            self.trapped = saved_trapped;
        }
        proof {
            assert(entered(*old(self), inner, index, trap));
            assert(left_to(inner_after, *old(self), *self, trap));
            assert(yard.laid_out(inner, inner_after, out));
        }
        (out, caught)
    }
}

/// A sequence of regions is its own whole prefix, so a context that pushed
/// nothing grew from its earlier state.
pub proof fn lemma_take_all(s: Seq<Bounds>)
    ensures
        s.take(s.len() as int) == s,
{
    assert(s.take(s.len() as int) =~= s);
}

/// Growth composes: a context that grew from one that grew from a third
/// grew from the third.
pub proof fn lemma_grew_transitive(a: LayoutContext, b: LayoutContext, c: LayoutContext)
    requires
        b.grew_from(a),
        c.grew_from(b),
    ensures
        c.grew_from(a),
{
    let al = a.spec_holdings().len() as int;
    let bl = b.spec_holdings().len() as int;
    assert(c.spec_holdings().take(al) =~= c.spec_holdings().take(bl).take(al));
    assert(b.spec_holdings().take(al) == a.spec_holdings());
}

/// `b` holds the same layout state as `a`.
pub open spec fn same_state(a: LayoutContext, b: LayoutContext) -> bool {
    &&& b.spec_holdings() == a.spec_holdings()
    &&& b.spec_yard_map() == a.spec_yard_map()
    &&& b.spec_index() == a.spec_index()
    &&& b.spec_foci() == a.spec_foci()
    &&& b.spec_trapping() == a.spec_trapping()
    &&& b.spec_trapped() == a.spec_trapped()
    &&& b.spec_focus_max() == a.spec_focus_max()
}

/// `b` is `a` with the regions `added` pushed.
pub open spec fn pushed(a: LayoutContext, b: LayoutContext, added: Seq<Bounds>) -> bool {
    &&& b.spec_holdings() == a.spec_holdings() + added
    &&& b.spec_yard_map() == a.spec_yard_map()
    &&& b.spec_index() == a.spec_index()
    &&& b.spec_foci() == a.spec_foci()
    &&& b.spec_trapping() == a.spec_trapping()
    &&& b.spec_trapped() == a.spec_trapped()
    &&& b.spec_focus_max() == a.spec_focus_max()
}

/// `inner` is `outer` with region `index` as the edge, catching foci (and
/// nothing caught yet) when `trap` is set.
pub open spec fn entered(outer: LayoutContext, inner: LayoutContext, index: usize, trap: bool) -> bool {
    &&& inner.spec_holdings() == outer.spec_holdings()
    &&& inner.spec_yard_map() == outer.spec_yard_map()
    &&& inner.spec_foci() == outer.spec_foci()
    &&& inner.spec_focus_max() == outer.spec_focus_max()
    &&& inner.spec_index() == index
    &&& inner.spec_trapping() == (outer.spec_trapping() || trap)
    &&& inner.spec_trapped() == (if trap { None } else { outer.spec_trapped() })
}

/// `after` is `inner` with the edge and trapping of `outer` restored.
pub open spec fn left_to(inner: LayoutContext, outer: LayoutContext, after: LayoutContext, trap: bool) -> bool {
    &&& after.spec_holdings() == inner.spec_holdings()
    &&& after.spec_yard_map() == inner.spec_yard_map()
    &&& after.spec_foci() == inner.spec_foci()
    &&& after.spec_focus_max() == inner.spec_focus_max()
    &&& after.spec_index() == outer.spec_index()
    &&& after.spec_trapping() == outer.spec_trapping()
    &&& after.spec_trapped() == (if trap { outer.spec_trapped() } else { inner.spec_trapped() })
}

/// `yard` was laid out from `before` with region `index` as its edge,
/// catching its foci when `trap` is set, ending in region `r` with `caught`
/// the focus it offered last (when trapping), and `after` is the context
/// with the edge and trapping restored.
pub open spec fn laid_at<Y: Yard>(
    yard: &Y,
    before: LayoutContext,
    index: usize,
    trap: bool,
    after: LayoutContext,
    r: usize,
    caught: Option<Focus>,
) -> bool {
    exists|i: LayoutContext, o: LayoutContext|
        #![trigger yard.laid_out(i, o, r)]
        entered(before, i, index, trap) && yard.laid_out(i, o, r) && left_to(o, before, after, trap) && caught == (
        if trap {
            o.spec_trapped()
        } else {
            None
        })
}

/// `after` ends a compound yard laid out from `before`: its edge region when
/// the parts' nearest depth `z` is the edge's, and otherwise a new region of
/// the edge's extent at that depth pushed onto `last`.
pub open spec fn ended_at_depth(before: LayoutContext, last: LayoutContext, after: LayoutContext, r: usize, z: i32) -> bool {
    let e = before.spec_edge();
    if e.z == z {
        r == before.spec_index() && same_state(last, after)
    } else {
        r == last.spec_holdings().len() && pushed(last, after, seq![Bounds { z, ..e }])
    }
}

/// A yard that occupies its edge region: it ends there, pushes nothing,
/// records the edge as the region of `id` (if any) and leaves the foci alone.
pub open spec fn occupied_edge(before: LayoutContext, after: LayoutContext, r: usize, id: Option<i32>) -> bool {
    &&& r == before.spec_index()
    &&& after.spec_holdings() == before.spec_holdings()
    &&& after.spec_index() == before.spec_index()
    &&& after.spec_trapping() == before.spec_trapping()
    &&& after.kept_foci(before)
    &&& after.spec_yard_map() == match id {
        Some(i) => before.spec_yard_map().insert(i, r),
        None => before.spec_yard_map(),
    }
}

/// Something drawn on the screen, which claims its regions in a layout.
pub trait Yard {
    /// What laying the yard out does: from `before` it leaves `after`,
    /// ending in region `r`.
    spec fn laid_out(&self, before: LayoutContext, after: LayoutContext, r: usize) -> bool;

    /// Painting the yard, the focus being on yard `focus_id`, finds the
    /// regions it reads recorded in `hold`, and what it draws there fits.
    spec fn paints_in(&self, hold: BoundsHold, focus_id: i32) -> bool;

    /// Cell (`row`, `col`) after the yard paints into `s`, with its regions
    /// taken from `hold` and the focus on yard `focus_id`.
    spec fn painted(&self, hold: BoundsHold, focus_id: i32, row: int, col: int, s: SpotStack) -> SpotStack;

    fn id(&self) -> i32;

    /// Whether painting the yard finds what it needs (see `paints_in`).
    fn paints_ok(&self, hold: &BoundsHold, focus_id: i32) -> (r: bool)
        ensures
            r == self.paints_in(*hold, focus_id),
    ;

    /// Paints the yard into cell (`row`, `col`).
    fn paint_spot(&self, hold: &BoundsHold, focus_id: i32, row: i32, col: i32, s: SpotStack) -> (r: SpotStack)
        requires
            self.paints_in(*hold, focus_id),
        ensures
            r == self.painted(*hold, focus_id, row as int, col as int, s),
    ;

    /// Lays the yard out within the context's edge region and returns the
    /// index of the region the yard ends up occupying.
    fn layout(&self, ctx: &mut LayoutContext) -> (r: usize)
        requires
            old(ctx).wf(),
        ensures
            final(ctx).wf(),
            final(ctx).grew_from(*old(ctx)),
            r < final(ctx).spec_holdings().len(),
            self.laid_out(*old(ctx), *final(ctx), r),
    ;
}

/// Lays several yards out in one region and gathers the nearest depth
/// that they reach.
#[derive(Debug)]
pub struct MultiLayout {
    start_index: usize,
    start_bounds: Bounds,
    near_z: i32,
    finished: bool,
    trap_foci: bool,
    trapped_focus: Option<Focus>,
    end_index: usize,
}

/// `b` is `a` with `bounds` pushed.
pub open spec fn pushed_one(a: LayoutContext, b: LayoutContext, bounds: Bounds) -> bool {
    pushed(a, b, seq![bounds])
}

/// What one `MultiLayout::layout` call does to the context: `yard` is laid
/// out in a new region `bounds` when that differs from the start region,
/// and otherwise in the start region itself (catching its foci when `trap`
/// is set), ending in region `end`.
pub open spec fn multi_laid<Y: Yard>(
    yard: &Y,
    start: Bounds,
    trap: bool,
    bounds: Bounds,
    before: LayoutContext,
    after: LayoutContext,
    end: usize,
    caught: Option<Focus>,
) -> bool {
    if bounds != start {
        exists|c1: LayoutContext|
            #![trigger pushed_one(before, c1, bounds)]
            pushed_one(before, c1, bounds) && laid_at(
                yard,
                c1,
                before.spec_holdings().len() as usize,
                trap,
                after,
                end,
                caught,
            )
    } else if trap {
        laid_at(yard, before, before.spec_index(), true, after, end, caught)
    } else {
        yard.laid_out(before, after, end) && caught is None
    }
}

impl MultiLayout {
    /// The region the yard laid out last ended in.
    pub closed spec fn spec_end_index(&self) -> usize {
        self.end_index
    }

    pub closed spec fn spec_start_index(&self) -> usize {
        self.start_index
    }

    pub closed spec fn spec_start_bounds(&self) -> Bounds {
        self.start_bounds
    }

    pub closed spec fn spec_near_z(&self) -> i32 {
        self.near_z
    }

    pub closed spec fn spec_finished(&self) -> bool {
        self.finished
    }

    pub closed spec fn spec_trap_foci(&self) -> bool {
        self.trap_foci
    }

    pub closed spec fn spec_trapped_focus(&self) -> Option<Focus> {
        self.trapped_focus
    }

    /// The layout works in `ctx`: its start region is the context's edge,
    /// and the nearest depth is no farther than the start's.
    pub open spec fn works_in(&self, ctx: &LayoutContext) -> bool {
        &&& ctx.wf()
        &&& ctx.spec_index() == self.spec_start_index()
        &&& ctx.spec_edge() == self.spec_start_bounds()
        &&& self.spec_near_z() <= self.spec_start_bounds().z
        &&& exists|k: int|
            0 <= k < ctx.spec_holdings().len() && #[trigger] ctx.spec_holdings()[k].z == self.spec_near_z()
    }

    pub fn new(ctx: &LayoutContext) -> (m: MultiLayout)
        requires
            ctx.wf(),
        ensures
            m.works_in(ctx),
            m.spec_near_z() == ctx.spec_edge().z,
            !m.spec_finished(),
            !m.spec_trap_foci(),
            m.spec_trapped_focus() is None,
    {
        let (index, bounds) = ctx.edge_bounds();
        MultiLayout {
            start_index: index,
            start_bounds: bounds,
            near_z: bounds.z,
            finished: false,
            trap_foci: false,
            trapped_focus: None,
            end_index: index,
        }
    }

    /// Whether the foci of the yards laid out from now on are caught.
    pub fn trap_foci(&mut self, value: bool)
        ensures
            final(self).spec_trap_foci() == value,
            final(self).spec_start_index() == old(self).spec_start_index(),
            final(self).spec_start_bounds() == old(self).spec_start_bounds(),
            final(self).spec_near_z() == old(self).spec_near_z(),
            final(self).spec_finished() == old(self).spec_finished(),
            final(self).spec_trapped_focus() == old(self).spec_trapped_focus(),
    {
        self.trap_foci = value
    }

    /// The focus caught from the yard laid out last, if trapping.
    pub fn trapped_focus(&self) -> (r: Option<Focus>)
        ensures
            r == self.spec_trapped_focus(),
    {
        self.trapped_focus
    }

    pub fn near_z(&self) -> (r: i32)
        ensures
            r == self.spec_near_z(),
    {
        self.near_z
    }

    /// Lays `yard` out in `bounds`: in a new region when `bounds` differs
    /// from the start region (or in the start region itself), catching its
    /// foci when trapping; the nearest depth then takes in the depth of the
    /// region the yard ends in.
    pub fn layout<Y: Yard>(&mut self, ctx: &mut LayoutContext, yard: &Y, bounds: &Bounds)
        requires
            !old(self).spec_finished(),
            old(self).works_in(old(ctx)),
        ensures
            final(self).works_in(final(ctx)),
            final(ctx).grew_from(*old(ctx)),
            !final(self).spec_finished(),
            final(self).spec_start_index() == old(self).spec_start_index(),
            final(self).spec_start_bounds() == old(self).spec_start_bounds(),
            final(self).spec_trap_foci() == old(self).spec_trap_foci(),
            !old(self).spec_trap_foci() ==> final(self).spec_trapped_focus() is None,
            old(self).spec_trap_foci() ==> final(ctx).spec_foci() == old(ctx).spec_foci(),
            final(self).spec_near_z() <= old(self).spec_near_z(),
            multi_laid(
                yard,
                old(self).spec_start_bounds(),
                old(self).spec_trap_foci(),
                *bounds,
                *old(ctx),
                *final(ctx),
                final(self).spec_end_index(),
                final(self).spec_trapped_focus(),
            ),
            final(self).spec_end_index() < final(ctx).spec_holdings().len(),
            final(self).spec_near_z() == min_int(
                old(self).spec_near_z() as int,
                final(ctx).spec_holdings()[final(self).spec_end_index() as int].z as int,
            ),
    {
        self.trapped_focus = None;
        let different_bounds = *bounds != self.start_bounds;
        let out_index = if different_bounds || self.trap_foci {
            let in_index = if different_bounds {
                ctx.push_bounds(bounds)
            } else {
                ctx.current_index()
            };
            proof {
                if !different_bounds {
                    lemma_take_all(ctx.spec_holdings());
                }
            }
            let ghost pushed_ctx = *ctx;
            let (index, caught) = ctx.layout_at(yard, in_index, self.trap_foci);
            proof {
                lemma_grew_transitive(*old(ctx), pushed_ctx, *ctx);
                if different_bounds {
                    assert(pushed_ctx.spec_holdings() =~= old(ctx).spec_holdings() + seq![*bounds]);
                    assert(pushed_one(*old(ctx), pushed_ctx, *bounds));
                }
            }
            if self.trap_foci {
                self.trapped_focus = caught;
            }
            index
        } else {
            yard.layout(ctx)
        };
        self.end_index = out_index;
        let out_z = ctx.bounds(out_index).z;
        proof {
            let before = old(ctx).spec_holdings();
            let after = ctx.spec_holdings();
            assert(after.take(before.len() as int)[old(ctx).spec_index() as int] == old(ctx).spec_edge());
            let k = choose|k: int| 0 <= k < before.len() && #[trigger] before[k].z == old(self).spec_near_z();
            assert(after.take(before.len() as int)[k] == before[k]);
            if out_z >= self.near_z {
                assert(after[k].z == self.near_z);
            } else {
                assert(after[out_index as int].z == out_z);
            }
        }
        if out_z < self.near_z {
            self.near_z = out_z;
        }
    }

    /// Ends the layout: the start region when no yard came nearer than it,
    /// otherwise a new region of the start's extent at the nearest depth.
    pub fn finish(&mut self, ctx: &mut LayoutContext) -> (r: usize)
        requires
            !old(self).spec_finished(),
            old(self).works_in(old(ctx)),
        ensures
            final(self).spec_finished(),
            final(ctx).grew_from(*old(ctx)),
            final(ctx).wf(),
            r < final(ctx).spec_holdings().len(),
            final(ctx).spec_holdings()[r as int] == (Bounds { z: old(self).spec_near_z(), ..old(self).spec_start_bounds() }),
            final(ctx).spec_foci() == old(ctx).spec_foci(),
            final(ctx).spec_trapped() == old(ctx).spec_trapped(),
            old(self).spec_near_z() < old(self).spec_start_bounds().z ==> r == old(ctx).spec_holdings().len()
                && pushed(*old(ctx), *final(ctx), seq![Bounds { z: old(self).spec_near_z(), ..old(self).spec_start_bounds() }]),
            old(self).spec_near_z() >= old(self).spec_start_bounds().z ==> same_state(*old(ctx), *final(ctx)),
            old(self).spec_near_z() == old(self).spec_start_bounds().z ==> r == old(self).spec_start_index()
                && final(ctx).spec_holdings() == old(ctx).spec_holdings(),
    {
        self.finished = true;
        if self.near_z < self.start_bounds.z {
            let bounds = self.start_bounds.with_z(self.near_z);
            let index = ctx.push_bounds(&bounds);
            proof {
                assert(ctx.spec_holdings() =~= old(ctx).spec_holdings() + seq![bounds]);
            }
            index
        } else {
            proof {
                lemma_take_all(ctx.spec_holdings());
            }
            self.start_index
        }
    }
}

} // verus!
