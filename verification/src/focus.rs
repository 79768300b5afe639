//! Focus: the interactive regions of a screen, the one that holds the
//! keyboard focus, and how focus travels between regions.

use crate::bounds::{fits_i32, Bounds, Direction};
use crate::link::SyncLink;
use crate::scroll::ScrollAction;
use crate::textfield::{textfield_action, textfield_motion, EditAction};
use vstd::multiset::Multiset;
use vstd::prelude::*;
use vstd::seq_lib::to_multiset_build;

verus! {

/// What a focused region is asked to do.
#[derive(Copy, Clone, Debug, PartialEq, Eq, Structural)]
pub enum FocusAction {
    Go,
    Change(char),
}

/// How a region that decides arrow keys itself answers them.
#[derive(Copy, Clone, Debug, PartialEq, Eq, Structural)]
pub enum MotionKeys {
    /// A text field's cursor at `cursor_index` among `char_count`
    /// characters: left and right move it, sent on `link`, while it can
    /// move that way.
    Cursor { link: SyncLink, cursor_index: usize, char_count: usize },
    /// A list's nexus on item `item_index` of `max_index`: up and down
    /// scroll the list, sent on `link`, while the nexus can move that way.
    Scroll { link: SyncLink, item_index: usize, max_index: usize },
}

/// How a focused region takes input: a submit region is pressed, an edit
/// region receives characters, and a composite region is a submit region
/// that also decides how arrow keys move within it. Edit and composite
/// regions carry how they answer arrow keys.
#[derive(Copy, Clone, Debug, PartialEq, Eq, Structural)]
pub enum FocusType {
    Submit,
    Edit(MotionKeys),
    CompositeSubmit(MotionKeys),
}

/// What a focused region does with the actions it is given.
#[derive(Copy, Clone, Debug, PartialEq, Eq, Structural)]
pub enum FocusKeys {
    /// Nothing happens.
    Ignore,
    /// Each action sends `value` on `link`.
    Send { link: SyncLink, value: i32 },
    /// Each action sends the index `index` on `link`.
    Select { link: SyncLink, index: usize },
    /// Each action selects tab `index` of the bar whose selection is
    /// reported on `link`; the index is sent only when the selection
    /// changes (see `TabSelection`).
    Reselect { link: SyncLink, index: usize },
    /// Each action runs the press handler that the region's yard holds.
    Touch,
    /// Characters become edits of a text field, sent on `link`.
    Edit { link: SyncLink },
}

/// What the application is asked to do for a focused region.
#[derive(Copy, Clone, Debug, PartialEq, Eq, Structural)]
pub enum FocusReply {
    Nothing,
    /// Send the value on the link.
    Send(SyncLink, i32),
    /// Send the index on the link.
    Select(SyncLink, usize),
    /// Select the tab with this index in the bar whose selection is
    /// reported on the link, sending the index there only when the
    /// selection changes.
    Reselect(SyncLink, usize),
    /// Run the press handler of the yard with this id.
    Touch(i32),
    /// Send the edit on the link, then redraw.
    Edit(SyncLink, EditAction),
    /// Send the scroll on the link.
    Scroll(SyncLink, ScrollAction),
}

#[derive(Copy, Clone, Debug, PartialEq, Eq, Structural)]
pub enum FocusMotion {
    Left,
    Right,
    Up,
    Down,
}

/// A focused region's answer to an arrow key: let focus move on (`Default`)
/// or keep it because the region handled the key itself (`Skip`).
#[derive(Copy, Clone, Debug, PartialEq, Eq, Structural)]
pub enum FocusMotionFuture {
    Default,
    Skip,
}

/// An interactive region of the screen.
#[derive(Copy, Clone, Debug, PartialEq, Eq, Structural)]
pub struct Focus {
    pub yard_id: i32,
    pub focus_type: FocusType,
    pub bounds: Bounds,
    pub priority: u32,
    pub action_block: FocusKeys,
}

/// What an edit region's text field asks for when given `action`: the edit
/// (sent on `link`, then a redraw), or nothing.
pub open spec fn edit_reply(link: SyncLink, action: FocusAction) -> FocusReply {
    match action {
        FocusAction::Go => FocusReply::Nothing,
        FocusAction::Change(c) => if !crate::textfield::spec_is_control(c) {
            FocusReply::Edit(link, EditAction::InsertChar(c))
        } else if c == '\u{8}' {
            FocusReply::Edit(link, EditAction::DeleteCharBeforeCursor)
        } else if c == '\u{7f}' {
            FocusReply::Edit(link, EditAction::DeleteCharAtCursor)
        } else {
            FocusReply::Nothing
        },
    }
}

/// How a region that decides arrow keys answers `motion`: whether focus
/// may move on, and what it asks of the application.
pub open spec fn keys_motion(keys: MotionKeys, motion: FocusMotion) -> (FocusMotionFuture, FocusReply) {
    match keys {
        MotionKeys::Cursor { link, cursor_index, char_count } => match motion {
            FocusMotion::Left => if cursor_index == 0 {
                (FocusMotionFuture::Default, FocusReply::Nothing)
            } else {
                (FocusMotionFuture::Skip, FocusReply::Edit(link, EditAction::MoveCursorLeft))
            },
            FocusMotion::Right => if cursor_index == char_count {
                (FocusMotionFuture::Default, FocusReply::Nothing)
            } else {
                (FocusMotionFuture::Skip, FocusReply::Edit(link, EditAction::MoveCursorRight))
            },
            _ => (FocusMotionFuture::Default, FocusReply::Nothing),
        },
        MotionKeys::Scroll { link, item_index, max_index } => match motion {
            FocusMotion::Up => if item_index > 0 {
                (FocusMotionFuture::Skip, FocusReply::Scroll(link, ScrollAction::Up))
            } else {
                (FocusMotionFuture::Default, FocusReply::Nothing)
            },
            FocusMotion::Down => if item_index + 1 < max_index {
                (FocusMotionFuture::Skip, FocusReply::Scroll(link, ScrollAction::Down))
            } else {
                (FocusMotionFuture::Default, FocusReply::Nothing)
            },
            _ => (FocusMotionFuture::Default, FocusReply::Nothing),
        },
    }
}

/// How a region that decides arrow keys answers `motion`.
pub fn answer_motion(keys: MotionKeys, motion: FocusMotion) -> (r: (FocusMotionFuture, FocusReply))
    ensures
        r == keys_motion(keys, motion),
{
    match keys {
        MotionKeys::Cursor { link, cursor_index, char_count } => {
            let (future, edit) = textfield_motion(cursor_index, char_count, motion);
            match edit {
                Some(e) => (future, FocusReply::Edit(link, e)),
                None => (future, FocusReply::Nothing),
            }
        },
        MotionKeys::Scroll { link, item_index, max_index } => match motion {
            FocusMotion::Up => if item_index > 0 {
                (FocusMotionFuture::Skip, FocusReply::Scroll(link, ScrollAction::Up))
            } else {
                (FocusMotionFuture::Default, FocusReply::Nothing)
            },
            FocusMotion::Down => if item_index < max_index && item_index + 1 < max_index {
                (FocusMotionFuture::Skip, FocusReply::Scroll(link, ScrollAction::Down))
            } else {
                (FocusMotionFuture::Default, FocusReply::Nothing)
            },
            _ => (FocusMotionFuture::Default, FocusReply::Nothing),
        },
    }
}

impl Focus {
    /// Whether the region is no farther back than depth `focus_max`.
    pub fn is_in_range(&self, focus_max: i32) -> (r: bool)
        ensures
            r == (self.bounds.z <= focus_max),
    {
        self.bounds.z <= focus_max
    }

    /// The action that typing `c` sends to the region: edit regions receive
    /// the character, submit regions ignore it.
    pub fn insert_char(&self, c: char) -> (r: Option<FocusAction>)
        ensures
            r == (if self.focus_type is Edit { Some(FocusAction::Change(c)) } else { None }),
    {
        match self.focus_type {
            FocusType::Submit | FocusType::CompositeSubmit(_) => None,
            FocusType::Edit(_) => Some(FocusAction::Change(c)),
        }
    }

    /// What the region asks of the application when given `action`.
    pub open spec fn spec_act(self, action: FocusAction) -> FocusReply {
        match self.action_block {
            FocusKeys::Ignore => FocusReply::Nothing,
            FocusKeys::Send { link, value } => FocusReply::Send(link, value),
            FocusKeys::Select { link, index } => FocusReply::Select(link, index),
            FocusKeys::Reselect { link, index } => FocusReply::Reselect(link, index),
            FocusKeys::Touch => FocusReply::Touch(self.yard_id),
            FocusKeys::Edit { link } => edit_reply(link, action),
        }
    }

    /// What the region asks of the application when given `action`: a
    /// submit region sends its value or runs its yard's press handler
    /// whatever the action; a text field asks for the edit the action
    /// stands for.
    pub fn act(&self, action: FocusAction) -> (r: FocusReply)
        ensures
            r == self.spec_act(action),
    {
        match self.action_block {
            FocusKeys::Ignore => FocusReply::Nothing,
            FocusKeys::Send { link, value } => FocusReply::Send(link, value),
            FocusKeys::Select { link, index } => FocusReply::Select(link, index),
            FocusKeys::Reselect { link, index } => FocusReply::Reselect(link, index),
            FocusKeys::Touch => FocusReply::Touch(self.yard_id),
            FocusKeys::Edit { link } => match textfield_action(action) {
                Some(e) => FocusReply::Edit(link, e),
                None => FocusReply::Nothing,
            },
        }
    }

    /// How the region answers an arrow key: a submit region lets focus move
    /// on and asks nothing; the others answer by their keys.
    pub open spec fn spec_motion(self, motion: FocusMotion) -> (FocusMotionFuture, FocusReply) {
        match self.focus_type {
            FocusType::Submit => (FocusMotionFuture::Default, FocusReply::Nothing),
            FocusType::Edit(keys) => keys_motion(keys, motion),
            FocusType::CompositeSubmit(keys) => keys_motion(keys, motion),
        }
    }

    pub fn motion(&self, motion: FocusMotion) -> (r: (FocusMotionFuture, FocusReply))
        ensures
            r == self.spec_motion(motion),
    {
        match self.focus_type {
            FocusType::Submit => (FocusMotionFuture::Default, FocusReply::Nothing),
            FocusType::Edit(keys) => answer_motion(keys, motion),
            FocusType::CompositeSubmit(keys) => answer_motion(keys, motion),
        }
    }

    /// The action that the space bar sends to the region: edit regions
    /// receive a space, submit regions are pressed.
    pub fn insert_space(&self) -> (r: FocusAction)
        ensures
            r == (if self.focus_type is Edit { FocusAction::Change(' ') } else { FocusAction::Go }),
    {
        match self.focus_type {
            FocusType::Edit(_) => FocusAction::Change(' '),
            FocusType::Submit | FocusType::CompositeSubmit(_) => FocusAction::Go,
        }
    }

    /// The region moved `depth` layers nearer, as when layers are inserted
    /// behind it.
    pub fn expand_seam(&self, depth: i32) -> (r: Focus)
        requires
            fits_i32(self.bounds.z - depth),
        ensures
            r == (Focus { bounds: Bounds { z: (self.bounds.z - depth) as i32, ..self.bounds }, ..*self }),
    {
        Focus { bounds: self.bounds.with_z(self.bounds.z - depth), ..*self }
    }

    /// The region moved `left` columns right, `top` rows down and `z` layers back.
    pub fn shift_seam(&self, z: i32, left: i32, top: i32) -> (r: Focus)
        requires
            self.shift_ok(z, left, top),
        ensures
            r == self.spec_shift(z, left, top),
    {
        let b = self.bounds;
        let bounds = Bounds {
            right: b.right + left,
            bottom: b.bottom + top,
            left: b.left + left,
            top: b.top + top,
            z: b.z + z,
        };
        Focus { bounds, ..*self }
    }

    pub open spec fn spec_shift(self, z: i32, left: i32, top: i32) -> Focus {
        let b = self.bounds;
        Focus {
            bounds: Bounds {
                right: (b.right + left) as i32,
                bottom: (b.bottom + top) as i32,
                left: (b.left + left) as i32,
                top: (b.top + top) as i32,
                z: (b.z + z) as i32,
            },
            ..self
        }
    }

    pub open spec fn shift_ok(self, z: i32, left: i32, top: i32) -> bool {
        let b = self.bounds;
        &&& fits_i32(b.right + left)
        &&& fits_i32(b.bottom + top)
        &&& fits_i32(b.left + left)
        &&& fits_i32(b.top + top)
        &&& fits_i32(b.z + z)
    }
}

/// The peers of `s`, kept or left out by whether they lie on the `dir`
/// side of `origin`, in their order.
pub open spec fn select(s: Seq<Focus>, dir: Direction, origin: Bounds, lying: bool) -> Seq<Focus>
    decreases s.len(),
{
    if s.len() == 0 {
        Seq::empty()
    } else {
        let rest = select(s.drop_last(), dir, origin, lying);
        if s.last().bounds.spec_lies(dir, origin) == lying {
            rest.push(s.last())
        } else {
            rest
        }
    }
}

/// The rank of a region as a focus target from `origin` in `dir`.
pub open spec fn rank_of(f: Focus, dir: Direction, origin: Bounds) -> int {
    f.bounds.spec_rank(dir, origin)
}

/// `x` placed into `sorted` after every element whose rank is at most its own.
pub open spec fn insert_by_rank(sorted: Seq<Focus>, x: Focus, dir: Direction, origin: Bounds) -> Seq<Focus>
    decreases sorted.len(),
{
    if sorted.len() == 0 {
        seq![x]
    } else if rank_of(sorted.last(), dir, origin) <= rank_of(x, dir, origin) {
        sorted.push(x)
    } else {
        insert_by_rank(sorted.drop_last(), x, dir, origin).push(sorted.last())
    }
}

/// `s` sorted by rank, stably: regions of equal rank keep their order.
pub open spec fn sort_by_rank(s: Seq<Focus>, dir: Direction, origin: Bounds) -> Seq<Focus>
    decreases s.len(),
{
    if s.len() == 0 {
        Seq::empty()
    } else {
        insert_by_rank(sort_by_rank(s.drop_last(), dir, origin), s.last(), dir, origin)
    }
}

/// Inserting at the scan position found from the end is the spec insertion.
proof fn lemma_insert_at_scan(sorted: Seq<Focus>, x: Focus, dir: Direction, origin: Bounds, j: int)
    requires
        0 <= j <= sorted.len(),
        forall|k: int| j <= k < sorted.len() ==> rank_of(#[trigger] sorted[k], dir, origin) > rank_of(x, dir, origin),
        j > 0 ==> rank_of(sorted[j - 1], dir, origin) <= rank_of(x, dir, origin),
    ensures
        insert_by_rank(sorted, x, dir, origin) == sorted.insert(j, x),
    decreases sorted.len(),
{
    if sorted.len() == 0 {
        assert(sorted.insert(j, x) =~= seq![x]);
    } else if j == sorted.len() {
        assert(sorted.insert(j, x) =~= sorted.push(x));
    } else {
        let last = sorted.last();
        assert(rank_of(sorted[sorted.len() - 1], dir, origin) > rank_of(x, dir, origin));
        lemma_insert_at_scan(sorted.drop_last(), x, dir, origin, j);
        assert(sorted.drop_last().insert(j, x).push(last) =~= sorted.insert(j, x));
    }
}

/// Sorts regions by rank, stably, as `sort_by_rank` says.
fn sort_foci_by_rank(targets: &Vec<Focus>, dir: Direction, origin: &Bounds) -> (r: Vec<Focus>)
    requires
        forall|k: int| 0 <= k < targets@.len() ==> (#[trigger] targets@[k]).bounds.rank_fits(dir, *origin),
    ensures
        r@ == sort_by_rank(targets@, dir, *origin),
{
    let mut sorted: Vec<Focus> = Vec::new();
    let mut i: usize = 0;
    while i < targets.len()
        invariant
            i <= targets@.len(),
            forall|k: int| 0 <= k < targets@.len() ==> (#[trigger] targets@[k]).bounds.rank_fits(dir, *origin),
            sorted@ == sort_by_rank(targets@.take(i as int), dir, *origin),
            forall|k: int| 0 <= k < sorted@.len() ==> (#[trigger] sorted@[k]).bounds.rank_fits(dir, *origin),
            sorted@.len() == i,
        decreases targets@.len() - i,
    {
        let x = targets[i];
        let x_rank = x.bounds.rank(dir, origin);
        let mut j: usize = sorted.len();
        while j > 0 && sorted[j - 1].bounds.rank(dir, origin) > x_rank
            invariant
                j <= sorted@.len(),
                forall|k: int| 0 <= k < sorted@.len() ==> (#[trigger] sorted@[k]).bounds.rank_fits(dir, *origin),
                x_rank == rank_of(x, dir, *origin),
                forall|k: int| j <= k < sorted@.len() ==> rank_of(#[trigger] sorted@[k], dir, *origin) > x_rank,
            decreases j,
        {
            j = j - 1;
        }
        proof {
            lemma_insert_at_scan(sorted@, x, dir, *origin, j as int);
            assert(targets@.take(i + 1).drop_last() =~= targets@.take(i as int));
            assert(targets@.take(i + 1).last() == x);
        }
        sorted.insert(j, x);
        i = i + 1;
    }
    proof {
        assert(targets@.take(i as int) =~= targets@);
    }
    sorted
}

#[derive(Clone, Debug)]
pub struct ActiveFocus {
    pub focus: Option<Focus>,
    pub peers: Vec<Focus>,
    pub rear_z: i32,
}

impl Default for ActiveFocus {
    fn default() -> (r: Self)
        ensures
            r.focus is None,
            r.peers@ == Seq::<Focus>::empty(),
            r.rear_z == 0,
    {
        ActiveFocus { focus: None, peers: Vec::new(), rear_z: 0 }
    }
}

impl ActiveFocus {
    /// Every region: the peers, then the focused region if there is one.
    pub open spec fn spec_foci(self) -> Seq<Focus> {
        match self.focus {
            Some(f) => self.peers@.push(f),
            None => self.peers@,
        }
    }

    /// This value equals `other`.
    pub open spec fn same_as(self, other: ActiveFocus) -> bool {
        &&& self.focus == other.focus
        &&& self.peers@ == other.peers@
        &&& self.rear_z == other.rear_z
    }

    fn copy_of(&self) -> (r: ActiveFocus)
        ensures
            r.same_as(*self),
    {
        let mut peers: Vec<Focus> = Vec::new();
        let mut i: usize = 0;
        while i < self.peers.len()
            invariant
                i <= self.peers@.len(),
                peers@ == self.peers@.take(i as int),
            decreases self.peers@.len() - i,
        {
            peers.push(self.peers[i]);
            i = i + 1;
            proof {
                assert(peers@ =~= self.peers@.take(i as int));
            }
        }
        proof {
            assert(peers@ =~= self.peers@);
        }
        ActiveFocus { focus: self.focus, peers, rear_z: self.rear_z }
    }

    pub fn to_foci(&self) -> (r: Vec<Focus>)
        ensures
            r@ == self.spec_foci(),
    {
        let mut all = self.copy_of().peers;
        if let Some(focus) = self.focus {
            all.push(focus);
        }
        all
    }

    pub fn focus_id(&self) -> (r: i32)
        ensures
            r == (match self.focus {
                Some(f) => f.yard_id,
                None => 0,
            }),
    {
        match self.focus {
            Some(focus) => focus.yard_id,
            None => 0,
        }
    }

    /// The nearest depth among zero, the focused region and the peers.
    pub fn nearest_z(&self) -> (r: i32)
        ensures
            r <= 0,
            self.focus matches Some(f) ==> r <= f.bounds.z,
            forall|k: int| 0 <= k < self.peers@.len() ==> r <= (#[trigger] self.peers@[k]).bounds.z,
            r == 0 || (self.focus matches Some(f) && r == f.bounds.z) || exists|k: int|
                0 <= k < self.peers@.len() && r == (#[trigger] self.peers@[k]).bounds.z,
    {
        let mut near: i32 = match self.focus {
            Some(focus) => if focus.bounds.z < 0 { focus.bounds.z } else { 0 },
            None => 0,
        };
        let mut i: usize = 0;
        while i < self.peers.len()
            invariant
                i <= self.peers@.len(),
                near <= 0,
                self.focus matches Some(f) ==> near <= f.bounds.z,
                forall|k: int| 0 <= k < i ==> near <= (#[trigger] self.peers@[k]).bounds.z,
                near == 0 || (self.focus matches Some(f) && near == f.bounds.z) || exists|k: int|
                    0 <= k < self.peers@.len() && near == (#[trigger] self.peers@[k]).bounds.z,
            decreases self.peers@.len() - i,
        {
            let z = self.peers[i].bounds.z;
            if z < near {
                near = z;
            }
            i = i + 1;
        }
        near
    }

    /// What typing `c` sends to the focused region, if any.
    pub fn insert_char(&self, c: char) -> (r: Option<FocusAction>)
        ensures
            r == (match self.focus {
                Some(f) => if f.focus_type is Edit { Some(FocusAction::Change(c)) } else { None },
                None => None,
            }),
    {
        match self.focus {
            Some(focus) => focus.insert_char(c),
            None => None,
        }
    }

    /// What the space bar sends to the focused region, if any.
    pub fn insert_space(&self) -> (r: Option<FocusAction>)
        ensures
            r == (match self.focus {
                Some(f) => Some(
                    if f.focus_type is Edit { FocusAction::Change(' ') } else { FocusAction::Go },
                ),
                None => None,
            }),
    {
        match self.focus {
            Some(focus) => Some(focus.insert_space()),
            None => None,
        }
    }

    /// How the focused region answers an arrow key `motion`: whether focus
    /// may move on, and what it asks of the application. With no focus
    /// there is nothing to keep it.
    pub open spec fn spec_motion_reply(self, motion: FocusMotion) -> (FocusMotionFuture, FocusReply) {
        match self.focus {
            Some(f) => f.spec_motion(motion),
            None => (FocusMotionFuture::Default, FocusReply::Nothing),
        }
    }

    /// The focused region's answer to the arrow key `motion`.
    pub fn motion_reply(&self, motion: FocusMotion) -> (r: (FocusMotionFuture, FocusReply))
        ensures
            r == self.spec_motion_reply(motion),
    {
        match self.focus {
            Some(focus) => focus.motion(motion),
            None => (FocusMotionFuture::Default, FocusReply::Nothing),
        }
    }

    /// What the focused region asks of the application when given
    /// `action`, if a region holds the focus.
    pub fn act(&self, action: FocusAction) -> (r: FocusReply)
        ensures
            r == (match self.focus {
                Some(f) => f.spec_act(action),
                None => FocusReply::Nothing,
            }),
    {
        match self.focus {
            Some(focus) => focus.act(action),
            None => FocusReply::Nothing,
        }
    }

    /// Every peer lying in `dir` from the focused region has a rank that fits an `i32`.
    pub open spec fn ranks_fit(self, dir: Direction) -> bool {
        self.focus matches Some(f) ==> forall|k: int|
            0 <= k < self.peers@.len() && (#[trigger] self.peers@[k]).bounds.spec_lies(dir, f.bounds)
                ==> self.peers@[k].bounds.rank_fits(dir, f.bounds)
    }

    /// Whether every peer lying in `dir` from the focused region has a rank
    /// that fits an `i32` (see [`Self::ranks_fit`]).
    pub fn ranks_fit_in(&self, dir: Direction) -> (r: bool)
        ensures
            r == self.ranks_fit(dir),
    {
        match self.focus {
            None => true,
            Some(focus) => {
                let mut i: usize = 0;
                while i < self.peers.len()
                    invariant
                        self.focus == Some(focus),
                        i <= self.peers@.len(),
                        forall|k: int|
                            0 <= k < i && (#[trigger] self.peers@[k]).bounds.spec_lies(dir, focus.bounds)
                                ==> self.peers@[k].bounds.rank_fits(dir, focus.bounds),
                    decreases self.peers@.len() - i,
                {
                    let peer = &self.peers[i];
                    if peer.bounds.lies(dir, &focus.bounds) && !peer.bounds.rank_in_range(dir, &focus.bounds) {
                        return false;
                    }
                    i = i + 1;
                }
                true
            },
        }
    }

    /// Focus moved in `dir`: the nearest-ranked peer lying in `dir` from the
    /// focused region takes the focus (the first such peer among equal
    /// ranks); the other peers keep their order, followed by the remaining
    /// candidates by rank and then the formerly focused region. With no
    /// focus or no candidate, nothing changes.
    pub open spec fn moved_to(self, dir: Direction, r: ActiveFocus) -> bool {
        match self.focus {
            None => r.same_as(self),
            Some(f) => {
                let targets = select(self.peers@, dir, f.bounds, true);
                if targets.len() == 0 {
                    r.same_as(self)
                } else {
                    let sorted = sort_by_rank(targets, dir, f.bounds);
                    &&& r.focus == Some(sorted[0])
                    &&& r.peers@ == select(self.peers@, dir, f.bounds, false) + sorted.drop_first().push(f)
                    &&& r.rear_z == self.rear_z
                }
            },
        }
    }

    fn next_focus(&self, dir: Direction) -> (r: ActiveFocus)
        requires
            self.ranks_fit(dir),
        ensures
            self.moved_to(dir, r),
    {
        match self.focus {
            None => self.copy_of(),
            Some(focus) => {
                let origin = focus.bounds;
                let mut targets: Vec<Focus> = Vec::new();
                let mut next_peers: Vec<Focus> = Vec::new();
                let mut i: usize = 0;
                while i < self.peers.len()
                    invariant
                        self.ranks_fit(dir),
                        self.focus == Some(focus),
                        origin == focus.bounds,
                        i <= self.peers@.len(),
                        targets@ == select(self.peers@.take(i as int), dir, origin, true),
                        next_peers@ == select(self.peers@.take(i as int), dir, origin, false),
                        forall|k: int| 0 <= k < targets@.len() ==> (#[trigger] targets@[k]).bounds.rank_fits(dir, origin),
                    decreases self.peers@.len() - i,
                {
                    let peer = self.peers[i];
                    proof {
                        assert(self.peers@.take(i + 1).drop_last() =~= self.peers@.take(i as int));
                        assert(self.peers@.take(i + 1).last() == peer);
                    }
                    if peer.bounds.lies(dir, &origin) {
                        targets.push(peer);
                    } else {
                        next_peers.push(peer);
                    }
                    i = i + 1;
                }
                proof {
                    assert(self.peers@.take(i as int) =~= self.peers@);
                }
                let mut sorted = sort_foci_by_rank(&targets, dir, &origin);
                proof {
                    lemma_sort_keeps_length(targets@, dir, origin);
                }
                if sorted.len() == 0 {
                    self.copy_of()
                } else {
                    let next = sorted.remove(0);
                    proof {
                        assert(sorted@ == sort_by_rank(targets@, dir, origin).drop_first());
                    }
                    next_peers.append(&mut sorted);
                    next_peers.push(focus);
                    ActiveFocus { focus: Some(next), peers: next_peers, rear_z: self.rear_z }
                }
            },
        }
    }

    /// Up arrow: the focused region answers the key first; unless it keeps
    /// the key, focus moves up. Returns the new focus and what the region
    /// asked of the application.
    pub fn move_up(&self) -> (r: (ActiveFocus, FocusReply))
        requires
            self.spec_motion_reply(FocusMotion::Up).0 == FocusMotionFuture::Default ==> self.ranks_fit(Direction::Up),
        ensures
            r.1 == self.spec_motion_reply(FocusMotion::Up).1,
            self.spec_motion_reply(FocusMotion::Up).0 == FocusMotionFuture::Default ==> self.moved_to(Direction::Up, r.0),
            self.spec_motion_reply(FocusMotion::Up).0 == FocusMotionFuture::Skip ==> r.0.same_as(*self),
    {
        let (future, reply) = self.motion_reply(FocusMotion::Up);
        if future == FocusMotionFuture::Default {
            (self.next_focus(Direction::Up), reply)
        } else {
            (self.copy_of(), reply)
        }
    }

    /// Down arrow: the focused region answers the key first; unless it keeps
    /// the key, focus moves down. Returns the new focus and what the region
    /// asked of the application.
    pub fn move_down(&self) -> (r: (ActiveFocus, FocusReply))
        requires
            self.spec_motion_reply(FocusMotion::Down).0 == FocusMotionFuture::Default ==> self.ranks_fit(Direction::Down),
        ensures
            r.1 == self.spec_motion_reply(FocusMotion::Down).1,
            self.spec_motion_reply(FocusMotion::Down).0 == FocusMotionFuture::Default ==> self.moved_to(Direction::Down, r.0),
            self.spec_motion_reply(FocusMotion::Down).0 == FocusMotionFuture::Skip ==> r.0.same_as(*self),
    {
        let (future, reply) = self.motion_reply(FocusMotion::Down);
        if future == FocusMotionFuture::Default {
            (self.next_focus(Direction::Down), reply)
        } else {
            (self.copy_of(), reply)
        }
    }

    /// Left arrow: the focused region answers the key first; unless it keeps
    /// the key, focus moves left. Returns the new focus and what the region
    /// asked of the application.
    pub fn move_left(&self) -> (r: (ActiveFocus, FocusReply))
        requires
            self.spec_motion_reply(FocusMotion::Left).0 == FocusMotionFuture::Default ==> self.ranks_fit(Direction::Left),
        ensures
            r.1 == self.spec_motion_reply(FocusMotion::Left).1,
            self.spec_motion_reply(FocusMotion::Left).0 == FocusMotionFuture::Default ==> self.moved_to(Direction::Left, r.0),
            self.spec_motion_reply(FocusMotion::Left).0 == FocusMotionFuture::Skip ==> r.0.same_as(*self),
    {
        let (future, reply) = self.motion_reply(FocusMotion::Left);
        if future == FocusMotionFuture::Default {
            (self.next_focus(Direction::Left), reply)
        } else {
            (self.copy_of(), reply)
        }
    }

    /// Right arrow: the focused region answers the key first; unless it keeps
    /// the key, focus moves right. Returns the new focus and what the region
    /// asked of the application.
    pub fn move_right(&self) -> (r: (ActiveFocus, FocusReply))
        requires
            self.spec_motion_reply(FocusMotion::Right).0 == FocusMotionFuture::Default ==> self.ranks_fit(Direction::Right),
        ensures
            r.1 == self.spec_motion_reply(FocusMotion::Right).1,
            self.spec_motion_reply(FocusMotion::Right).0 == FocusMotionFuture::Default ==> self.moved_to(Direction::Right, r.0),
            self.spec_motion_reply(FocusMotion::Right).0 == FocusMotionFuture::Skip ==> r.0.same_as(*self),
    {
        let (future, reply) = self.motion_reply(FocusMotion::Right);
        if future == FocusMotionFuture::Default {
            (self.next_focus(Direction::Right), reply)
        } else {
            (self.copy_of(), reply)
        }
    }
}


/// A region after layers are inserted at depth `z`: regions nearer than
/// the seam move `depth` layers nearer, the rest stay.
pub open spec fn seam_expanded(f: Focus, z: i32, depth: i32) -> Focus {
    if z > f.bounds.z {
        Focus { bounds: Bounds { z: (f.bounds.z - depth) as i32, ..f.bounds }, ..f }
    } else {
        f
    }
}

/// The regions of `s` no farther back than depth `max`, in their order.
pub open spec fn in_range(s: Seq<Focus>, max: int) -> Seq<Focus>
    decreases s.len(),
{
    if s.len() == 0 {
        Seq::empty()
    } else {
        let rest = in_range(s.drop_last(), max);
        if s.last().bounds.z <= max {
            rest.push(s.last())
        } else {
            rest
        }
    }
}

impl ActiveFocus {
    /// The rear depth after merging in `from`, whose seam sits at depth `z`.
    pub open spec fn spec_merged_rear_z(self, from: ActiveFocus, z: i32) -> i32 {
        if from.rear_z < i32::MAX {
            if self.rear_z <= from.rear_z + z { self.rear_z } else { (from.rear_z + z) as i32 }
        } else {
            self.rear_z
        }
    }

    /// Opens a seam `depth` layers deep at depth `z`: every region nearer
    /// than `z` (and the rear depth, if nearer) moves `depth` layers nearer,
    /// and the focused region becomes a peer.
    pub fn expand_seam(&mut self, z: i32, depth: i32)
        requires
            forall|k: int|
                0 <= k < old(self).spec_foci().len() && z > (#[trigger] old(self).spec_foci()[k]).bounds.z
                    ==> fits_i32(old(self).spec_foci()[k].bounds.z - depth),
            z > old(self).rear_z ==> fits_i32(old(self).rear_z - depth),
        ensures
            final(self).focus is None,
            final(self).peers@ == Seq::new(
                old(self).spec_foci().len(),
                |k: int| seam_expanded(old(self).spec_foci()[k], z, depth),
            ),
            final(self).rear_z == (if z > old(self).rear_z { (old(self).rear_z - depth) as i32 } else { old(self).rear_z }),
    {
        let foci = self.to_foci();
        let ghost all = foci@;
        let mut peers: Vec<Focus> = Vec::new();
        let mut i: usize = 0;
        while i < foci.len()
            invariant
                all == foci@,
                i <= all.len(),
                forall|k: int|
                    0 <= k < all.len() && z > (#[trigger] all[k]).bounds.z ==> fits_i32(all[k].bounds.z - depth),
                peers@ == Seq::new(i as nat, |k: int| seam_expanded(all[k], z, depth)),
            decreases all.len() - i,
        {
            let focus = foci[i];
            if z > focus.bounds.z {
                peers.push(focus.expand_seam(depth));
            } else {
                peers.push(focus);
            }
            i = i + 1;
            proof {
                assert(peers@ =~= Seq::new(i as nat, |k: int| seam_expanded(all[k], z, depth)));
            }
        }
        self.peers = peers;
        self.rear_z = if z > self.rear_z { self.rear_z - depth } else { self.rear_z };
        self.focus = None;
    }

    /// Merges the regions of `from`, drawn `left` columns right, `top` rows
    /// down and `z` layers back, keeping only regions no farther back than
    /// the merged rear depth; the focused region becomes a peer.
    pub fn insert_seam(&mut self, from: &ActiveFocus, z: i32, left: i32, top: i32)
        requires
            forall|k: int|
                0 <= k < from.spec_foci().len() ==> (#[trigger] from.spec_foci()[k]).shift_ok(z, left, top),
            from.rear_z < i32::MAX ==> fits_i32(from.rear_z + z),
        ensures
            final(self).focus is None,
            final(self).rear_z == old(self).spec_merged_rear_z(*from, z),
            final(self).peers@ == in_range(
                old(self).spec_foci() + Seq::new(
                    from.spec_foci().len(),
                    |k: int| from.spec_foci()[k].spec_shift(z, left, top),
                ),
                old(self).spec_merged_rear_z(*from, z) as int,
            ),
    {
        let from_foci = from.to_foci();
        let ghost inserted = Seq::new(from_foci@.len(), |k: int| from_foci@[k].spec_shift(z, left, top));
        let mut insert_foci: Vec<Focus> = Vec::new();
        let mut i: usize = 0;
        while i < from_foci.len()
            invariant
                i <= from_foci@.len(),
                from_foci@ == from.spec_foci(),
                forall|k: int|
                    0 <= k < from.spec_foci().len() ==> (#[trigger] from.spec_foci()[k]).shift_ok(z, left, top),
                inserted == Seq::new(from_foci@.len(), |k: int| from_foci@[k].spec_shift(z, left, top)),
                insert_foci@ == inserted.take(i as int),
            decreases from_foci@.len() - i,
        {
            insert_foci.push(from_foci[i].shift_seam(z, left, top));
            i = i + 1;
            proof {
                assert(insert_foci@ =~= inserted.take(i as int));
            }
        }
        let new_rear_z = if from.rear_z < i32::MAX {
            let insert_rear_z = from.rear_z + z;
            if self.rear_z <= insert_rear_z { self.rear_z } else { insert_rear_z }
        } else {
            self.rear_z
        };
        let mut all = self.to_foci();
        let ghost joined = all@ + inserted;
        proof {
            assert(insert_foci@ =~= inserted);
        }
        all.append(&mut insert_foci);
        let mut peers: Vec<Focus> = Vec::new();
        let mut j: usize = 0;
        while j < all.len()
            invariant
                j <= all@.len(),
                all@ == joined,
                peers@ == in_range(joined.take(j as int), new_rear_z as int),
            decreases all@.len() - j,
        {
            let focus = all[j];
            proof {
                assert(joined.take(j + 1).drop_last() =~= joined.take(j as int));
                assert(joined.take(j + 1).last() == focus);
            }
            if focus.is_in_range(new_rear_z) {
                peers.push(focus);
            }
            j = j + 1;
        }
        proof {
            assert(joined.take(j as int) =~= joined);
        }
        self.peers = peers;
        self.rear_z = new_rear_z;
        self.focus = None;
    }
}


/// Every region of `s` ranks no farther than the next.
pub open spec fn rank_sorted(s: Seq<Focus>, dir: Direction, origin: Bounds) -> bool {
    forall|i: int, j: int| 0 <= i < j < s.len() ==> rank_of(#[trigger] s[i], dir, origin) <= rank_of(#[trigger] s[j], dir, origin)
}

proof fn lemma_insert_bounded(s: Seq<Focus>, x: Focus, dir: Direction, origin: Bounds, bound: int)
    requires
        forall|k: int| 0 <= k < s.len() ==> rank_of(#[trigger] s[k], dir, origin) <= bound,
        rank_of(x, dir, origin) <= bound,
    ensures
        forall|k: int|
            0 <= k < insert_by_rank(s, x, dir, origin).len() ==> rank_of(
                #[trigger] insert_by_rank(s, x, dir, origin)[k],
                dir,
                origin,
            ) <= bound,
    decreases s.len(),
{
    let r = insert_by_rank(s, x, dir, origin);
    if s.len() == 0 {
        assert(r[0] == x);
    } else if rank_of(s.last(), dir, origin) > rank_of(x, dir, origin) {
        let rest = s.drop_last();
        assert forall|k: int| 0 <= k < rest.len() implies rank_of(#[trigger] rest[k], dir, origin) <= bound by {
            assert(rest[k] == s[k]);
        }
        lemma_insert_bounded(rest, x, dir, origin, bound);
        let inner = insert_by_rank(rest, x, dir, origin);
        assert forall|k: int| 0 <= k < r.len() implies rank_of(#[trigger] r[k], dir, origin) <= bound by {
            if k < inner.len() {
                assert(r[k] == inner[k]);
            } else {
                assert(r[k] == s[s.len() - 1]);
            }
        }
    } else {
        assert forall|k: int| 0 <= k < r.len() implies rank_of(#[trigger] r[k], dir, origin) <= bound by {
            if k < s.len() {
                assert(r[k] == s[k]);
            }
        }
    }
}

proof fn lemma_empty_multiset(s: Seq<Focus>)
    requires
        s.len() == 0,
    ensures
        s.to_multiset() =~= Multiset::empty(),
{
    vstd::seq_lib::to_multiset_len(s);
    vstd::multiset::lemma_multiset_empty_len(s.to_multiset());
}

proof fn lemma_insert_sorted(s: Seq<Focus>, x: Focus, dir: Direction, origin: Bounds)
    requires
        rank_sorted(s, dir, origin),
    ensures
        rank_sorted(insert_by_rank(s, x, dir, origin), dir, origin),
    decreases s.len(),
{
    if s.len() > 0 {
        let last = s.last();
        if rank_of(last, dir, origin) > rank_of(x, dir, origin) {
            let rest = s.drop_last();
            lemma_insert_sorted(rest, x, dir, origin);
            assert forall|k: int| 0 <= k < rest.len() implies rank_of(#[trigger] rest[k], dir, origin) <= rank_of(last, dir, origin) by {
                assert(s[k] == rest[k]);
                assert(s[s.len() - 1] == last);
            }
            lemma_insert_bounded(rest, x, dir, origin, rank_of(last, dir, origin));
        } else {
            assert forall|k: int| 0 <= k < s.len() implies rank_of(#[trigger] s[k], dir, origin) <= rank_of(x, dir, origin) by {
                if k < s.len() - 1 {
                    assert(rank_of(s[k], dir, origin) <= rank_of(s[s.len() - 1], dir, origin));
                }
            }
        }
    }
}

/// Sorting by rank orders the regions nearest first.
pub proof fn lemma_sort_is_sorted(s: Seq<Focus>, dir: Direction, origin: Bounds)
    ensures
        rank_sorted(sort_by_rank(s, dir, origin), dir, origin),
    decreases s.len(),
{
    if s.len() > 0 {
        lemma_sort_is_sorted(s.drop_last(), dir, origin);
        lemma_insert_sorted(sort_by_rank(s.drop_last(), dir, origin), s.last(), dir, origin);
    }
}

proof fn lemma_insert_multiset(s: Seq<Focus>, x: Focus, dir: Direction, origin: Bounds)
    ensures
        insert_by_rank(s, x, dir, origin).to_multiset() =~= s.to_multiset().insert(x),
    decreases s.len(),
{
    broadcast use vstd::seq_lib::to_multiset_build;
    broadcast use vstd::multiset::group_multiset_axioms;

    if s.len() == 0 {
        assert(seq![x] =~= s.push(x));
        to_multiset_build(s, x);
    } else if rank_of(s.last(), dir, origin) > rank_of(x, dir, origin) {
        let rest = s.drop_last();
        lemma_insert_multiset(rest, x, dir, origin);
        assert(s =~= rest.push(s.last()));
        to_multiset_build(rest, s.last());
        to_multiset_build(insert_by_rank(rest, x, dir, origin), s.last());
    } else {
        to_multiset_build(s, x);
    }
}

/// Sorting by rank neither loses nor adds regions.
pub proof fn lemma_sort_is_permutation(s: Seq<Focus>, dir: Direction, origin: Bounds)
    ensures
        sort_by_rank(s, dir, origin).to_multiset() =~= s.to_multiset(),
    decreases s.len(),
{
    broadcast use vstd::seq_lib::to_multiset_build;
    broadcast use vstd::multiset::group_multiset_axioms;

    if s.len() > 0 {
        lemma_sort_is_permutation(s.drop_last(), dir, origin);
        lemma_insert_multiset(sort_by_rank(s.drop_last(), dir, origin), s.last(), dir, origin);
        assert(s =~= s.drop_last().push(s.last()));
        to_multiset_build(s.drop_last(), s.last());
    } else {
        lemma_empty_multiset(s);
        lemma_empty_multiset(sort_by_rank(s, dir, origin));
    }
}

/// The regions lying in a direction and those that do not, together, are
/// the regions.
pub proof fn lemma_select_partitions(s: Seq<Focus>, dir: Direction, origin: Bounds)
    ensures
        select(s, dir, origin, true).to_multiset().add(select(s, dir, origin, false).to_multiset())
            =~= s.to_multiset(),
    decreases s.len(),
{
    broadcast use vstd::seq_lib::to_multiset_build;
    broadcast use vstd::multiset::group_multiset_axioms;

    if s.len() > 0 {
        lemma_select_partitions(s.drop_last(), dir, origin);
        assert(s =~= s.drop_last().push(s.last()));
        to_multiset_build(s.drop_last(), s.last());
        to_multiset_build(select(s.drop_last(), dir, origin, true), s.last());
        to_multiset_build(select(s.drop_last(), dir, origin, false), s.last());
    } else {
        lemma_empty_multiset(s);
        lemma_empty_multiset(select(s, dir, origin, true));
        lemma_empty_multiset(select(s, dir, origin, false));
    }
}

proof fn lemma_select_contains(s: Seq<Focus>, dir: Direction, origin: Bounds, k: int)
    requires
        0 <= k < s.len(),
        s[k].bounds.spec_lies(dir, origin),
    ensures
        select(s, dir, origin, true).contains(s[k]),
    decreases s.len(),
{
    let rest = select(s.drop_last(), dir, origin, true);
    if k == s.len() - 1 {
        assert(select(s, dir, origin, true)[rest.len() as int] == s[k]);
    } else {
        lemma_select_contains(s.drop_last(), dir, origin, k);
        let i = choose|i: int| 0 <= i < rest.len() && rest[i] == s[k];
        if s.last().bounds.spec_lies(dir, origin) {
            assert(select(s, dir, origin, true)[i] == s[k]);
        }
    }
}

/// The direction an arrow key moves focus in.
pub open spec fn direction_of(motion: FocusMotion) -> Direction {
    match motion {
        FocusMotion::Up => Direction::Up,
        FocusMotion::Down => Direction::Down,
        FocusMotion::Left => Direction::Left,
        FocusMotion::Right => Direction::Right,
    }
}

/// An arrow key, whether the focused region keeps it or focus moves,
/// leaves every region in place: the regions after it are those before
/// it, only the focus may have passed from one to another; the rear depth
/// stays, and with no focus nothing changes.
pub proof fn lemma_arrow_keeps_regions(a: ActiveFocus, motion: FocusMotion, r: ActiveFocus)
    requires
        a.spec_motion_reply(motion).0 == FocusMotionFuture::Default ==> a.moved_to(direction_of(motion), r),
        a.spec_motion_reply(motion).0 == FocusMotionFuture::Skip ==> r.same_as(a),
    ensures
        r.spec_foci().to_multiset() =~= a.spec_foci().to_multiset(),
        r.rear_z == a.rear_z,
        a.focus is None ==> r.same_as(a),
{
    if a.spec_motion_reply(motion).0 == FocusMotionFuture::Default {
        lemma_move_keeps_regions(a, direction_of(motion), r);
    } else {
        assert(r.spec_foci() =~= a.spec_foci());
    }
}

/// Moving focus keeps every region: the regions after the move are those
/// before it, only the focus has passed from one to another.
pub proof fn lemma_move_keeps_regions(a: ActiveFocus, dir: Direction, r: ActiveFocus)
    requires
        a.moved_to(dir, r),
    ensures
        r.spec_foci().to_multiset() =~= a.spec_foci().to_multiset(),
{
    broadcast use vstd::seq_lib::to_multiset_build;
    broadcast use vstd::seq_lib::lemma_multiset_commutative;
    broadcast use vstd::multiset::group_multiset_axioms;

    if let Some(f) = a.focus {
        let targets = select(a.peers@, dir, f.bounds, true);
        let others = select(a.peers@, dir, f.bounds, false);
        if targets.len() > 0 {
            let sorted = sort_by_rank(targets, dir, f.bounds);
            lemma_sort_keeps_length(targets, dir, f.bounds);
            lemma_sort_is_permutation(targets, dir, f.bounds);
            lemma_select_partitions(a.peers@, dir, f.bounds);
            assert(sorted =~= seq![sorted[0]] + sorted.drop_first());
            assert(seq![sorted[0]] =~= Seq::<Focus>::empty().push(sorted[0]));
            lemma_empty_multiset(Seq::<Focus>::empty());
            assert(r.peers@ =~= others + sorted.drop_first().push(f));
        }
    }
}

/// After a move, the focused region lies in the direction of the move
/// from the region focused before, and no region lying in that direction
/// ranks nearer.
pub proof fn lemma_move_picks_nearest(a: ActiveFocus, dir: Direction, r: ActiveFocus)
    requires
        a.moved_to(dir, r),
        a.focus is Some,
        select(a.peers@, dir, a.focus->0.bounds, true).len() > 0,
    ensures
        r.focus is Some,
        r.focus->0.bounds.spec_lies(dir, a.focus->0.bounds),
        forall|k: int|
            0 <= k < a.peers@.len() && (#[trigger] a.peers@[k]).bounds.spec_lies(dir, a.focus->0.bounds) ==> rank_of(
                r.focus->0,
                dir,
                a.focus->0.bounds,
            ) <= rank_of(a.peers@[k], dir, a.focus->0.bounds),
{
    broadcast use vstd::seq_lib::to_multiset_contains;

    let f = a.focus->0;
    let origin = f.bounds;
    let targets = select(a.peers@, dir, origin, true);
    let sorted = sort_by_rank(targets, dir, origin);
    lemma_sort_keeps_length(targets, dir, origin);
    lemma_sort_is_permutation(targets, dir, origin);
    lemma_sort_is_sorted(targets, dir, origin);
    lemma_select_lies(a.peers@, dir, origin);
    assert(sorted.contains(sorted[0]));
    assert(sorted.to_multiset().count(sorted[0]) > 0);
    assert(targets.to_multiset().count(sorted[0]) > 0);
    assert(targets.contains(sorted[0]));
    assert forall|k: int|
        0 <= k < a.peers@.len() && (#[trigger] a.peers@[k]).bounds.spec_lies(dir, origin) implies rank_of(
        sorted[0],
        dir,
        origin,
    ) <= rank_of(a.peers@[k], dir, origin) by {
        lemma_select_contains(a.peers@, dir, origin, k);
        assert(sorted.to_multiset().count(a.peers@[k]) > 0);
        let i = choose|i: int| 0 <= i < sorted.len() && sorted[i] == a.peers@[k];
        if i > 0 {
            assert(rank_of(sorted[0], dir, origin) <= rank_of(sorted[i], dir, origin));
        }
    }
}

proof fn lemma_select_lies(s: Seq<Focus>, dir: Direction, origin: Bounds)
    ensures
        forall|e: Focus| select(s, dir, origin, true).contains(e) ==> e.bounds.spec_lies(dir, origin),
    decreases s.len(),
{
    if s.len() > 0 {
        lemma_select_lies(s.drop_last(), dir, origin);
        let rest = select(s.drop_last(), dir, origin, true);
        assert forall|e: Focus| select(s, dir, origin, true).contains(e) implies e.bounds.spec_lies(dir, origin) by {
            let i = choose|i: int| 0 <= i < select(s, dir, origin, true).len() && select(s, dir, origin, true)[i] == e;
            if i < rest.len() {
                assert(rest[i] == e);
                assert(rest.contains(e));
            }
        }
    }
}

proof fn lemma_insert_length(sorted: Seq<Focus>, x: Focus, dir: Direction, origin: Bounds)
    ensures
        insert_by_rank(sorted, x, dir, origin).len() == sorted.len() + 1,
    decreases sorted.len(),
{
    if sorted.len() > 0 {
        lemma_insert_length(sorted.drop_last(), x, dir, origin);
    }
}

proof fn lemma_sort_keeps_length(s: Seq<Focus>, dir: Direction, origin: Bounds)
    ensures
        sort_by_rank(s, dir, origin).len() == s.len(),
    decreases s.len(),
{
    if s.len() > 0 {
        lemma_sort_keeps_length(s.drop_last(), dir, origin);
        lemma_insert_length(sort_by_rank(s.drop_last(), dir, origin), s.last(), dir, origin);
    }
}

/// A focused text field answers the left and right arrows as its cursor
/// can move: it keeps the key and asks for the cursor to move that way
/// exactly when the cursor is not already at that end of the text, and
/// otherwise lets focus move on; up and down always pass on.
pub proof fn lemma_cursor_keys_follow_cursor(link: SyncLink, cursor_index: usize, char_count: usize, motion: FocusMotion)
    requires
        cursor_index <= char_count,
    ensures
        ({
            let (future, reply) = keys_motion(MotionKeys::Cursor { link, cursor_index, char_count }, motion);
            match motion {
                FocusMotion::Left => {
                    &&& (future == FocusMotionFuture::Skip) == (cursor_index > 0)
                    &&& reply == (if cursor_index > 0 {
                        FocusReply::Edit(link, EditAction::MoveCursorLeft)
                    } else {
                        FocusReply::Nothing
                    })
                },
                FocusMotion::Right => {
                    &&& (future == FocusMotionFuture::Skip) == (cursor_index < char_count)
                    &&& reply == (if cursor_index < char_count {
                        FocusReply::Edit(link, EditAction::MoveCursorRight)
                    } else {
                        FocusReply::Nothing
                    })
                },
                _ => future == FocusMotionFuture::Default && reply == FocusReply::Nothing,
            }
        }),
{
}

} // verus!
