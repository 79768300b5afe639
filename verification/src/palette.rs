//! The colours of the screen and the numbering of the terminal's colour
//! pairs: every combination of stroke and fill colour gets one pair number,
//! handed out in the order the combinations are first drawn.

use vstd::prelude::*;
use vstd::std_specs::convert::FromSpecImpl;

verus! {

/// Terminal colour numbers of the palette's base colours.
pub const COLOR_BASE03: i16 = 0;
pub const COLOR_BASE02: i16 = 1;
pub const COLOR_BASE01: i16 = 2;
pub const COLOR_BASE00: i16 = 3;
pub const COLOR_BASE0: i16 = 4;
pub const COLOR_BASE1: i16 = 5;
pub const COLOR_BASE2: i16 = 6;
pub const COLOR_BASE3: i16 = 7;

#[derive(Copy, Clone, Debug, PartialEq, Eq, Hash, Structural)]
pub enum FillColor {
    Background,
    Primary,
    BackgroundWithFocus,
}

#[derive(Copy, Clone, Debug, PartialEq, Eq, Hash, Structural)]
pub enum StrokeColor {
    Body,
    PrimaryBody,
    Comment,
    EnabledOnBackground,
}

/// The shade a fill is drawn in: plain, under the focus, pressed, or
/// selected.
#[derive(Copy, Clone, Debug, PartialEq, Eq, Hash, Structural)]
pub enum FillGrade {
    Plain,
    Focus,
    Press,
    Select,
}

/// The terminal colour of a fill colour.
pub open spec fn fill_color_number(color: FillColor) -> i16 {
    match color {
        FillColor::Background => COLOR_BASE3,
        FillColor::Primary => COLOR_BASE02,
        FillColor::BackgroundWithFocus => COLOR_BASE1,
    }
}

/// The terminal colour of a stroke colour.
pub open spec fn stroke_color_number(color: StrokeColor) -> i16 {
    match color {
        StrokeColor::Body => COLOR_BASE00,
        StrokeColor::PrimaryBody => COLOR_BASE1,
        StrokeColor::Comment => COLOR_BASE1,
        StrokeColor::EnabledOnBackground => COLOR_BASE02,
    }
}

impl From<FillColor> for i16 {
    fn from(color: FillColor) -> (r: i16) {
        match color {
            FillColor::Background => COLOR_BASE3,
            FillColor::Primary => COLOR_BASE02,
            FillColor::BackgroundWithFocus => COLOR_BASE1,
        }
    }
}

impl FromSpecImpl<FillColor> for i16 {
    open spec fn obeys_from_spec() -> bool {
        true
    }

    open spec fn from_spec(color: FillColor) -> i16 {
        fill_color_number(color)
    }
}

impl From<StrokeColor> for i16 {
    fn from(color: StrokeColor) -> (r: i16) {
        match color {
            StrokeColor::Body => COLOR_BASE00,
            StrokeColor::PrimaryBody => COLOR_BASE1,
            StrokeColor::Comment => COLOR_BASE1,
            StrokeColor::EnabledOnBackground => COLOR_BASE02,
        }
    }
}

impl FromSpecImpl<StrokeColor> for i16 {
    open spec fn obeys_from_spec() -> bool {
        true
    }

    open spec fn from_spec(color: StrokeColor) -> i16 {
        stroke_color_number(color)
    }
}

/// The slot of a stroke and fill combination, `0..12`.
pub open spec fn pair_slot(stroke: StrokeColor, fill: FillColor) -> int {
    let s = match stroke {
        StrokeColor::Body => 0int,
        StrokeColor::PrimaryBody => 1int,
        StrokeColor::Comment => 2int,
        StrokeColor::EnabledOnBackground => 3int,
    };
    let f = match fill {
        FillColor::Background => 0int,
        FillColor::Primary => 1int,
        FillColor::BackgroundWithFocus => 2int,
    };
    s * 3 + f
}

/// How many slots hold a pair number.
pub open spec fn assigned_count(slots: Seq<i16>, n: int) -> int
    decreases n,
{
    if n <= 0 || n > slots.len() {
        0
    } else {
        assigned_count(slots, n - 1) + if slots[n - 1] != 0 { 1int } else { 0int }
    }
}

/// A colour pair number, and whether it was handed out by this request
/// (the terminal must then be told the pair's colours).
#[derive(Copy, Clone, Debug, PartialEq, Eq, Structural)]
pub struct PairIndex {
    pub index: i16,
    pub fresh: bool,
}

/// The colour pairs handed out so far.
#[derive(Debug)]
pub struct Palette {
    slots: Vec<i16>,
    next_index: i16,
}

impl Palette {
    /// The pair number of a combination, if one was handed out.
    pub closed spec fn spec_pair(&self, stroke: StrokeColor, fill: FillColor) -> Option<i16> {
        let v = self.slots@[pair_slot(stroke, fill)];
        if v == 0 { None } else { Some(v) }
    }

    /// The next pair number to hand out.
    pub closed spec fn spec_next_index(&self) -> i16 {
        self.next_index
    }

    /// Pair numbers are handed out from 1 upward, one per combination, and
    /// never twice.
    pub closed spec fn wf(&self) -> bool {
        &&& self.slots@.len() == 12
        &&& self.next_index == assigned_count(self.slots@, 12) + 1
        &&& forall|k: int| 0 <= k < 12 ==> 0 <= #[trigger] self.slots@[k] < self.next_index
        &&& forall|a: int, b: int|
            0 <= a < 12 && 0 <= b < 12 && a != b && #[trigger] self.slots@[a] != 0
                ==> self.slots@[a] != #[trigger] self.slots@[b]
    }

    /// A palette that has handed out no pair.
    pub fn new() -> (p: Palette)
        ensures
            p.wf(),
            p.spec_next_index() == 1,
            forall|s: StrokeColor, f: FillColor| p.spec_pair(s, f) is None,
    {
        let mut slots: Vec<i16> = Vec::new();
        let mut i: usize = 0;
        while i < 12
            invariant
                i <= 12,
                slots@ == Seq::new(i as nat, |k: int| 0i16),
            decreases 12 - i,
        {
            slots.push(0);
            i = i + 1;
        }
        proof {
            lemma_no_assigned(slots@, 12);
        }
        Palette { slots, next_index: 1 }
    }

    /// The pair number of a combination: the one it already has, or the
    /// next number, which it keeps from then on.
    pub fn color_pair_index(&mut self, stroke: StrokeColor, fill: FillColor) -> (r: PairIndex)
        requires
            old(self).wf(),
        ensures
            final(self).wf(),
            match old(self).spec_pair(stroke, fill) {
                Some(i) => r == (PairIndex { index: i, fresh: false }) && final(self).spec_next_index()
                    == old(self).spec_next_index() && forall|s: StrokeColor, f: FillColor|
                    final(self).spec_pair(s, f) == old(self).spec_pair(s, f),
                None => {
                    &&& r == (PairIndex { index: old(self).spec_next_index(), fresh: true })
                    &&& final(self).spec_next_index() == old(self).spec_next_index() + 1
                    &&& final(self).spec_pair(stroke, fill) == Some(r.index)
                    &&& forall|s: StrokeColor, f: FillColor|
                        pair_slot(s, f) != pair_slot(stroke, fill) ==> final(self).spec_pair(s, f)
                            == old(self).spec_pair(s, f)
                },
            },
    {
        let slot = Palette::slot_of(stroke, fill);
        match self.existing_index(slot) {
            Some(index) => PairIndex { index, fresh: false },
            None => {
                proof {
                    lemma_assigned_bound(self.slots@, 12);
                    lemma_assigned_absent_below(self.slots@, 12, slot as int);
                }
                let index = self.advance_index();
                let ghost before = self.slots@;
                self.slots.set(slot, index);
                proof {
                    lemma_assign_slot(before, 12, slot as int, index);
                }
                PairIndex { index, fresh: true }
            },
        }
    }

    fn slot_of(stroke: StrokeColor, fill: FillColor) -> (r: usize)
        ensures
            r == pair_slot(stroke, fill),
            r < 12,
    {
        let s: usize = match stroke {
            StrokeColor::Body => 0,
            StrokeColor::PrimaryBody => 1,
            StrokeColor::Comment => 2,
            StrokeColor::EnabledOnBackground => 3,
        };
        let f: usize = match fill {
            FillColor::Background => 0,
            FillColor::Primary => 1,
            FillColor::BackgroundWithFocus => 2,
        };
        s * 3 + f
    }

    fn existing_index(&self, slot: usize) -> (r: Option<i16>)
        requires
            self.wf(),
            slot < 12,
        ensures
            r == (if self.slots@[slot as int] == 0 { None } else { Some(self.slots@[slot as int]) }),
    {
        let v = self.slots[slot];
        if v == 0 { None } else { Some(v) }
    }

    fn advance_index(&mut self) -> (index: i16)
        requires
            old(self).next_index < i16::MAX,
        ensures
            index == old(self).next_index,
            final(self).next_index == old(self).next_index + 1,
            final(self).slots@ == old(self).slots@,
    {
        let index = self.next_index;
        self.next_index = index + 1;
        index
    }
}

proof fn lemma_no_assigned(slots: Seq<i16>, n: int)
    requires
        0 <= n <= slots.len(),
        forall|k: int| 0 <= k < slots.len() ==> slots[k] == 0,
    ensures
        assigned_count(slots, n) == 0,
    decreases n,
{
    if n > 0 {
        lemma_no_assigned(slots, n - 1);
    }
}

proof fn lemma_assigned_bound(slots: Seq<i16>, n: int)
    requires
        0 <= n <= slots.len(),
    ensures
        0 <= assigned_count(slots, n) <= n,
    decreases n,
{
    if n > 0 {
        lemma_assigned_bound(slots, n - 1);
    }
}

/// When slot `j` is empty, fewer than `n` of the first `n` slots are assigned.
proof fn lemma_assigned_absent_below(slots: Seq<i16>, n: int, j: int)
    requires
        0 <= j < n <= slots.len(),
        slots[j] == 0,
    ensures
        assigned_count(slots, n) < n,
    decreases n,
{
    if j < n - 1 {
        lemma_assigned_absent_below(slots, n - 1, j);
    } else {
        lemma_assigned_bound(slots, n - 1);
    }
}

/// Assigning an empty slot adds one to the count of assigned slots.
proof fn lemma_assign_slot(slots: Seq<i16>, n: int, j: int, v: i16)
    requires
        0 <= j < slots.len(),
        0 <= n <= slots.len(),
        slots[j] == 0,
        v != 0,
    ensures
        assigned_count(slots.update(j, v), n) == assigned_count(slots, n) + if j < n { 1int } else { 0int },
    decreases n,
{
    if n > 0 {
        lemma_assign_slot(slots, n - 1, j, v);
    }
}

/// Two different combinations never share a pair number.
pub proof fn lemma_pairs_distinct(p: &Palette, s1: StrokeColor, f1: FillColor, s2: StrokeColor, f2: FillColor)
    requires
        p.wf(),
        (s1, f1) != (s2, f2),
        p.spec_pair(s1, f1) is Some,
    ensures
        p.spec_pair(s1, f1) != p.spec_pair(s2, f2),
{
    reveal_pair_slot_injective(s1, f1, s2, f2);
    assert(p.slots@[pair_slot(s1, f1)] != p.slots@[pair_slot(s2, f2)]);
}

proof fn reveal_pair_slot_injective(s1: StrokeColor, f1: FillColor, s2: StrokeColor, f2: FillColor)
    ensures
        (s1, f1) != (s2, f2) ==> pair_slot(s1, f1) != pair_slot(s2, f2),
        0 <= pair_slot(s1, f1) < 12,
        0 <= pair_slot(s2, f2) < 12,
{
}

} // verus!
