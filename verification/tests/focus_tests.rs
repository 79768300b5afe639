use yui::bounds::{Bounds, Direction};
use yui::focus::{ActiveFocus, Focus, FocusAction, FocusKeys, FocusMotion, FocusMotionFuture, FocusReply, FocusType, MotionKeys};
use yui::link::SyncLink;
use yui::scroll::ScrollAction;
use yui::textfield::EditAction;

fn region(left: i32, top: i32, right: i32, bottom: i32, z: i32) -> Bounds {
    Bounds { right, bottom, left, top, z }
}

fn submit(id: i32, bounds: Bounds) -> Focus {
    Focus { yard_id: id, focus_type: FocusType::Submit, bounds, priority: 0, action_block: FocusKeys::Touch }
}

const FIELD_LINK: SyncLink = SyncLink { channel: 4 };

/// An edit region whose cursor stands at `cursor_index` among three characters.
fn edit_at(id: i32, bounds: Bounds, cursor_index: usize) -> Focus {
    Focus {
        yard_id: id,
        focus_type: FocusType::Edit(MotionKeys::Cursor { link: FIELD_LINK, cursor_index, char_count: 3 }),
        bounds,
        priority: 0,
        action_block: FocusKeys::Edit { link: FIELD_LINK },
    }
}

fn edit(id: i32, bounds: Bounds) -> Focus {
    edit_at(id, bounds, 0)
}

/// A focused button in the middle, with one region on each side and a
/// second, farther region above.
fn cross() -> ActiveFocus {
    let center = submit(1, region(10, 10, 20, 12, 0));
    let peers = vec![
        submit(2, region(10, 0, 20, 2, 0)),
        submit(3, region(10, 5, 20, 7, 0)),
        submit(4, region(10, 20, 20, 22, 0)),
        submit(5, region(0, 10, 5, 12, 0)),
        submit(6, region(25, 10, 30, 12, 0)),
    ];
    ActiveFocus { focus: Some(center), peers, rear_z: 0 }
}

#[test]
fn focus_range_is_by_depth() {
    let f = submit(1, region(0, 0, 1, 1, -3));
    assert!(f.is_in_range(-3));
    assert!(f.is_in_range(0));
    assert!(!f.is_in_range(-4));
}

#[test]
fn typing_reaches_edit_regions_only() {
    let b = region(0, 0, 4, 1, 0);
    assert_eq!(edit(1, b).insert_char('x'), Some(FocusAction::Change('x')));
    assert_eq!(submit(1, b).insert_char('x'), None);
    assert_eq!(edit(1, b).insert_space(), FocusAction::Change(' '));
    assert_eq!(submit(1, b).insert_space(), FocusAction::Go);
    let keys = MotionKeys::Scroll { link: SyncLink { channel: 5 }, item_index: 0, max_index: 2 };
    let composite = Focus { focus_type: FocusType::CompositeSubmit(keys), ..submit(1, b) };
    assert_eq!(composite.insert_space(), FocusAction::Go);
    assert_eq!(composite.insert_char('q'), None);
}

#[test]
fn seams_move_a_region() {
    let f = submit(1, region(2, 3, 6, 5, -1));
    assert_eq!(f.expand_seam(2).bounds, region(2, 3, 6, 5, -3));
    assert_eq!(f.shift_seam(1, 10, 20).bounds, region(12, 23, 16, 25, 0));
}

#[test]
fn active_focus_reports_its_region() {
    let active = cross();
    assert_eq!(active.focus_id(), 1);
    assert_eq!(ActiveFocus::default().focus_id(), 0);
    let all = active.to_foci();
    assert_eq!(all.len(), 6);
    assert_eq!(all[5].yard_id, 1);
    assert_eq!(all[0].yard_id, 2);
}

#[test]
fn nearest_z_takes_the_nearest_region_or_zero() {
    let mut active = cross();
    assert_eq!(active.nearest_z(), 0);
    active.peers.push(submit(9, region(0, 0, 1, 1, -4)));
    assert_eq!(active.nearest_z(), -4);
    let far = ActiveFocus { focus: Some(submit(1, region(0, 0, 1, 1, 3))), peers: vec![], rear_z: 0 };
    assert_eq!(far.nearest_z(), 0);
}

#[test]
fn active_focus_passes_keys_on() {
    let active = ActiveFocus { focus: Some(edit(1, region(0, 0, 4, 1, 0))), peers: vec![], rear_z: 0 };
    assert_eq!(active.insert_char('a'), Some(FocusAction::Change('a')));
    assert_eq!(active.insert_space(), Some(FocusAction::Change(' ')));
    assert_eq!(cross().insert_char('a'), None);
    assert_eq!(cross().insert_space(), Some(FocusAction::Go));
    assert_eq!(ActiveFocus::default().insert_space(), None);
}

#[test]
fn move_up_takes_the_nearest_region_above() {
    let (moved, reply) = cross().move_up();
    assert_eq!(reply, FocusReply::Nothing);
    assert_eq!(moved.focus_id(), 3);
    let ids: Vec<i32> = moved.peers.iter().map(|f| f.yard_id).collect();
    assert_eq!(ids, vec![4, 5, 6, 2, 1]);
    assert_eq!(moved.rear_z, 0);
}

#[test]
fn moves_in_each_direction() {
    assert_eq!(cross().move_down().0.focus_id(), 4);
    assert_eq!(cross().move_left().0.focus_id(), 5);
    assert_eq!(cross().move_right().0.focus_id(), 6);
}

#[test]
fn move_without_candidates_keeps_focus() {
    let alone = ActiveFocus { focus: Some(submit(1, region(0, 0, 2, 2, 0))), peers: vec![], rear_z: 0 };
    let (moved, _) = alone.move_left();
    assert_eq!(moved.focus_id(), 1);
    assert!(moved.peers.is_empty());
    assert_eq!(ActiveFocus::default().move_down().0.focus_id(), 0);
}

#[test]
fn a_region_that_keeps_the_key_keeps_focus() {
    let mut active = cross();
    active.focus = Some(edit_at(1, region(10, 10, 20, 12, 0), 1));
    let (kept, reply) = active.move_left();
    assert_eq!(kept.focus_id(), 1);
    assert_eq!(kept.peers.len(), 5);
    assert_eq!(reply, FocusReply::Edit(FIELD_LINK, EditAction::MoveCursorLeft));
    // Up and down are not the field's to keep.
    let (moved, reply) = active.move_up();
    assert_eq!(moved.focus_id(), 3);
    assert_eq!(reply, FocusReply::Nothing);
    // With the cursor at the left end, focus leaves the field.
    active.focus = Some(edit_at(1, region(10, 10, 20, 12, 0), 0));
    assert_eq!(active.move_left().0.focus_id(), 5);
    // A submit region never keeps an arrow key.
    assert_eq!(cross().move_up().0.focus_id(), 3);
}

#[test]
fn equal_ranks_go_to_the_first_candidate() {
    let center = submit(1, region(10, 10, 20, 12, 0));
    let peers = vec![submit(7, region(10, 4, 20, 6, 0)), submit(8, region(10, 4, 20, 6, 0))];
    let active = ActiveFocus { focus: Some(center), peers, rear_z: 0 };
    let (moved, _) = active.move_up();
    assert_eq!(moved.focus_id(), 7);
    let ids: Vec<i32> = moved.peers.iter().map(|f| f.yard_id).collect();
    assert_eq!(ids, vec![8, 1]);
}

#[test]
fn expand_seam_moves_nearer_regions() {
    let mut active = ActiveFocus {
        focus: Some(submit(1, region(0, 0, 1, 1, -2))),
        peers: vec![submit(2, region(0, 0, 1, 1, 0)), submit(3, region(0, 0, 1, 1, -5))],
        rear_z: 0,
    };
    active.expand_seam(-1, 3);
    assert!(active.focus.is_none());
    let zs: Vec<(i32, i32)> = active.peers.iter().map(|f| (f.yard_id, f.bounds.z)).collect();
    assert_eq!(zs, vec![(2, 0), (3, -8), (1, -5)]);
    assert_eq!(active.rear_z, 0);
}

#[test]
fn insert_seam_merges_shifted_regions_in_range() {
    let mut active = ActiveFocus { focus: Some(submit(1, region(0, 0, 1, 1, -1))), peers: vec![], rear_z: 0 };
    let from = ActiveFocus {
        focus: Some(submit(2, region(0, 0, 2, 2, -1))),
        peers: vec![submit(3, region(0, 0, 2, 2, 4))],
        rear_z: 1,
    };
    active.insert_seam(&from, 1, 5, 6);
    assert!(active.focus.is_none());
    assert_eq!(active.rear_z, 0);
    let ids: Vec<(i32, Bounds)> = active.peers.iter().map(|f| (f.yard_id, f.bounds)).collect();
    assert_eq!(ids, vec![(1, region(0, 0, 1, 1, -1)), (2, region(5, 6, 7, 8, 0))]);
}

#[test]
fn a_focus_acts_by_its_keys() {
    let b = region(0, 0, 4, 1, 0);
    let link = SyncLink { channel: 8 };
    let send = Focus { action_block: FocusKeys::Send { link, value: 12 }, ..submit(3, b) };
    assert_eq!(send.act(FocusAction::Go), FocusReply::Send(link, 12));
    let select = Focus { action_block: FocusKeys::Select { link, index: 2 }, ..submit(3, b) };
    assert_eq!(select.act(FocusAction::Go), FocusReply::Select(link, 2));
    assert_eq!(submit(3, b).act(FocusAction::Go), FocusReply::Touch(3));
    let ignore = Focus { action_block: FocusKeys::Ignore, ..submit(3, b) };
    assert_eq!(ignore.act(FocusAction::Go), FocusReply::Nothing);
    let field = edit(1, b);
    assert_eq!(field.act(FocusAction::Change('x')), FocusReply::Edit(FIELD_LINK, EditAction::InsertChar('x')));
    assert_eq!(field.act(FocusAction::Change('\u{8}')), FocusReply::Edit(FIELD_LINK, EditAction::DeleteCharBeforeCursor));
    assert_eq!(field.act(FocusAction::Change('\u{7f}')), FocusReply::Edit(FIELD_LINK, EditAction::DeleteCharAtCursor));
    assert_eq!(field.act(FocusAction::Change('\n')), FocusReply::Nothing);
    assert_eq!(field.act(FocusAction::Go), FocusReply::Nothing);
    assert_eq!(ActiveFocus::default().act(FocusAction::Go), FocusReply::Nothing);
}

#[test]
fn regions_answer_arrow_keys_by_their_keys() {
    let b = region(0, 0, 4, 1, 0);
    let link = SyncLink { channel: 6 };
    let list = |item_index: usize| Focus {
        focus_type: FocusType::CompositeSubmit(MotionKeys::Scroll { link, item_index, max_index: 3 }),
        ..submit(2, b)
    };
    assert_eq!(list(0).motion(FocusMotion::Up), (FocusMotionFuture::Default, FocusReply::Nothing));
    assert_eq!(list(0).motion(FocusMotion::Down), (FocusMotionFuture::Skip, FocusReply::Scroll(link, ScrollAction::Down)));
    assert_eq!(list(2).motion(FocusMotion::Down), (FocusMotionFuture::Default, FocusReply::Nothing));
    assert_eq!(list(2).motion(FocusMotion::Up), (FocusMotionFuture::Skip, FocusReply::Scroll(link, ScrollAction::Up)));
    assert_eq!(list(1).motion(FocusMotion::Left), (FocusMotionFuture::Default, FocusReply::Nothing));
    assert_eq!(edit_at(1, b, 3).motion(FocusMotion::Right), (FocusMotionFuture::Default, FocusReply::Nothing));
    assert_eq!(
        edit_at(1, b, 2).motion(FocusMotion::Right),
        (FocusMotionFuture::Skip, FocusReply::Edit(FIELD_LINK, EditAction::MoveCursorRight))
    );
    assert_eq!(submit(1, b).motion(FocusMotion::Up), (FocusMotionFuture::Default, FocusReply::Nothing));
}

#[test]
fn arrow_keys_keep_every_region() {
    let sorted_ids = |a: &ActiveFocus| {
        let mut ids: Vec<i32> = a.to_foci().iter().map(|f| f.yard_id).collect();
        ids.sort();
        ids
    };
    let before = cross();
    for (moved, _) in [before.move_up(), before.move_down(), before.move_left(), before.move_right()] {
        assert_eq!(sorted_ids(&moved), sorted_ids(&before));
        assert_ne!(moved.focus_id(), before.focus_id());
    }
    let mut field = cross();
    field.focus = Some(edit_at(1, region(10, 10, 20, 12, 0), 2));
    let (kept, _) = field.move_right();
    assert_eq!(kept.to_foci(), field.to_foci());
}

#[test]
fn ranks_fit_unless_a_region_lies_too_far() {
    assert!(cross().ranks_fit_in(Direction::Up));
    let mut far = cross();
    far.peers.push(submit(9, region(10, i32::MIN, 20, i32::MIN + 1, 0)));
    assert!(!far.ranks_fit_in(Direction::Up));
    assert!(far.ranks_fit_in(Direction::Down));
    assert!(ActiveFocus::default().ranks_fit_in(Direction::Left));
    let a = region(0, 0, 4, 2, 0);
    assert!(region(0, 5, 4, 7, 0).rank_in_range(Direction::Down, &a));
    assert!(!region(0, i32::MIN, 4, i32::MIN + 1, 0).rank_in_range(Direction::Up, &region(0, i32::MAX - 1, 4, i32::MAX, 0)));
}
