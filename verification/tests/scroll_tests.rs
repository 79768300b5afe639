use yui::bounds::Bounds;
use yui::focus::{Focus, FocusAction, FocusKeys, FocusMotion, FocusMotionFuture, FocusReply, FocusType, MotionKeys};
use yui::layout::{LayoutContext, Yard};
use yui::link::SyncLink;
use yui::nexus::Nexus;
use yui::palette::FillColor;
use yui::scroll::{list, LayoutItem, ScrollAction, ScrollModel};
use yui::yards::{fill_yard, FillYard};

fn region(left: i32, top: i32, right: i32, bottom: i32) -> Bounds {
    Bounds { right, bottom, left, top, z: 0 }
}

#[test]
fn new_model_sums_heights() {
    let model = ScrollModel::new(3, vec![2, 5, 1], 1);
    assert_eq!(model.id, 3);
    assert_eq!(model.item_heights, vec![2, 5, 1]);
    assert_eq!(model.item_tops, vec![0, 2, 7]);
    assert_eq!(model.sum_heights, 8);
    assert_eq!(model.min_item_height, 1);
    assert_eq!(model.item_count(), 3);
    assert_eq!(model.selected_index(), 1);
    assert_eq!(model.nexus, Nexus::Up { first_pos: 0, item_index: 0, max_index: 3 });
}

#[test]
fn new_count_height_repeats_the_height() {
    let model = ScrollModel::new_count_height(9, 4, 3, 2);
    assert_eq!(model.item_heights, vec![3, 3, 3, 3]);
    assert_eq!(model.item_tops, vec![0, 3, 6, 9]);
    assert_eq!(model.sum_heights, 12);
    assert_eq!(model.min_item_height, 3);
    assert_eq!(model.selected_index, 2);
}

#[test]
fn empty_model_has_no_least_height() {
    let model = ScrollModel::new(1, vec![], 0);
    assert_eq!(model.item_count(), 0);
    assert_eq!(model.sum_heights, 0);
    assert_eq!(model.min_item_height, i32::MAX);
}

#[test]
fn update_moves_the_nexus_and_stops_at_the_ends() {
    let model = ScrollModel::new(3, vec![2, 5, 1], 0);
    assert!(model.update(ScrollAction::Up).is_none());
    let down = model.update(ScrollAction::Down).expect("down");
    assert_eq!(down.nexus, Nexus::Down { last_pos: 6, item_index: 1, max_index: 3 });
    assert_eq!(down.item_tops, model.item_tops);
    let bottom = down.update(ScrollAction::Down).expect("down again");
    assert_eq!(bottom.nexus, Nexus::Down { last_pos: 7, item_index: 2, max_index: 3 });
    assert!(bottom.update(ScrollAction::Down).is_none());
    let back = bottom.update(ScrollAction::Up).expect("up");
    assert_eq!(back.nexus, Nexus::Up { first_pos: 2, item_index: 1, max_index: 3 });
}

#[test]
fn with_selected_index_keeps_the_nexus() {
    let model = ScrollModel::new(3, vec![2, 5, 1], 0).update(ScrollAction::Down).expect("down");
    let selected = model.with_selected_index(2);
    assert_eq!(selected.selected_index, 2);
    assert_eq!(selected.nexus, model.nexus);
    let moved = model.with_nexus(Nexus::Up { first_pos: 0, item_index: 0, max_index: 3 });
    assert_eq!(moved.nexus, Nexus::Up { first_pos: 0, item_index: 0, max_index: 3 });
    assert_eq!(moved.selected_index, 0);
}

#[test]
fn layout_items_from_the_top() {
    let model = ScrollModel::new_count_height(7, 5, 2, 0);
    let items = model.layout_items(&region(0, 0, 10, 4));
    assert_eq!(
        items,
        vec![
            LayoutItem { index: 0, bounds: region(0, 0, 10, 2) },
            LayoutItem { index: 1, bounds: region(0, 2, 10, 4) },
        ]
    );
}

#[test]
fn layout_items_after_scrolling_down() {
    let model = ScrollModel::new_count_height(7, 5, 2, 0).update(ScrollAction::Down).expect("down");
    let items = model.layout_items(&region(0, 0, 10, 4));
    assert_eq!(
        items,
        vec![
            LayoutItem { index: 0, bounds: region(0, -2, 10, 0) },
            LayoutItem { index: 1, bounds: region(0, 0, 10, 2) },
            LayoutItem { index: 2, bounds: region(0, 2, 10, 4) },
        ]
    );
}

#[test]
fn layout_items_of_a_short_list_sit_at_their_positions() {
    let model = ScrollModel::new(4, vec![1, 2], 0);
    let items = model.layout_items(&region(0, 3, 6, 10));
    assert_eq!(
        items,
        vec![
            LayoutItem { index: 0, bounds: region(0, 3, 6, 4) },
            LayoutItem { index: 1, bounds: region(0, 4, 6, 6) },
        ]
    );
}

#[test]
fn focus_motion_scrolls_while_it_can() {
    let model = ScrollModel::new(3, vec![2, 5, 1], 0);
    assert_eq!(model.focus_motion(FocusMotion::Up), (FocusMotionFuture::Default, None));
    assert_eq!(model.focus_motion(FocusMotion::Down), (FocusMotionFuture::Skip, Some(ScrollAction::Down)));
    assert_eq!(model.focus_motion(FocusMotion::Left), (FocusMotionFuture::Default, None));
    let bottom = model.update(ScrollAction::Down).unwrap().update(ScrollAction::Down).unwrap();
    assert_eq!(bottom.focus_motion(FocusMotion::Down), (FocusMotionFuture::Default, None));
    assert_eq!(bottom.focus_motion(FocusMotion::Up), (FocusMotionFuture::Skip, Some(ScrollAction::Up)));
    assert_eq!(bottom.focus_motion(FocusMotion::Right), (FocusMotionFuture::Default, None));
}

#[test]
fn create_focus_follows_the_item_focus() {
    let model = ScrollModel::new(3, vec![2, 5, 1], 0);
    let bounds = region(0, 0, 8, 8);
    let link = SyncLink { channel: 6 };
    let keys = MotionKeys::Scroll { link, item_index: 0, max_index: 3 };
    let plain = model.create_focus(&bounds, None, link);
    assert_eq!(
        plain,
        Focus { yard_id: 3, focus_type: FocusType::CompositeSubmit(keys), bounds, priority: 0, action_block: FocusKeys::Ignore }
    );
    assert_eq!(plain.motion(FocusMotion::Down), (FocusMotionFuture::Skip, FocusReply::Scroll(link, ScrollAction::Down)));
    assert_eq!(plain.motion(FocusMotion::Up), (FocusMotionFuture::Default, FocusReply::Nothing));
    let field_link = SyncLink { channel: 2 };
    let edit = Focus {
        yard_id: 40,
        focus_type: FocusType::Edit(MotionKeys::Cursor { link: field_link, cursor_index: 0, char_count: 0 }),
        bounds: region(0, 0, 8, 2),
        priority: 9,
        action_block: FocusKeys::Edit { link: field_link },
    };
    let over_edit = model.create_focus(&bounds, Some(edit), link);
    assert_eq!(over_edit.focus_type, FocusType::Edit(keys));
    assert_eq!(over_edit.act(FocusAction::Change('k')), FocusReply::Edit(field_link, yui::textfield::EditAction::InsertChar('k')));
    let submit = Focus { focus_type: FocusType::Submit, action_block: FocusKeys::Send { link: field_link, value: 4 }, ..edit };
    let over_submit = model.create_focus(&bounds, Some(submit), link);
    assert_eq!(over_submit.focus_type, FocusType::CompositeSubmit(keys));
    assert_eq!(over_submit.act(FocusAction::Go), FocusReply::Send(field_link, 4));
}

#[test]
fn render_items_marks_the_nexus_item_when_focused() {
    let model = ScrollModel::new_count_height(7, 5, 2, 0);
    let bounds = region(0, 0, 10, 4);
    assert_eq!(model.render_items(&bounds, 7, Some(40)), Some(vec![(0, Some(40)), (1, None)]));
    assert_eq!(model.render_items(&bounds, 8, Some(40)), Some(vec![(0, None), (1, None)]));
    assert_eq!(model.render_items(&bounds, 7, None), Some(vec![(0, None), (1, None)]));
}

#[test]
fn list_lays_out_the_shown_items() {
    let model = ScrollModel::new_count_height(7, 5, 2, 0);
    let yards: Vec<FillYard> = (0..5).map(|_| fill_yard(FillColor::Background)).collect();
    let ids: Vec<i32> = yards.iter().map(|yard| yard.id).collect();
    let list_yard = list(yards, model, SyncLink { channel: 1 });
    assert_eq!(list_yard.id(), 7);
    let mut ctx = LayoutContext::new(10, 4);
    let index = list_yard.layout(&mut ctx);
    assert_eq!(index, 0);
    assert_eq!(*ctx.hold().yard_bounds(ids[0]), region(0, 0, 10, 2));
    assert_eq!(*ctx.hold().yard_bounds(ids[1]), region(0, 2, 10, 4));
    assert_eq!(*ctx.hold().yard_bounds(7), region(0, 0, 10, 4));
    assert_eq!(
        ctx.foci().clone(),
        vec![Focus {
            yard_id: 7,
            focus_type: FocusType::CompositeSubmit(MotionKeys::Scroll { link: SyncLink { channel: 1 }, item_index: 0, max_index: 5 }),
            bounds: region(0, 0, 10, 4),
            priority: 0,
            action_block: FocusKeys::Ignore,
        }]
    );
}

#[test]
fn empty_list_lays_out_no_item() {
    let model = ScrollModel::new(5, vec![], 0);
    let list_yard = list(Vec::<FillYard>::new(), model, SyncLink { channel: 1 });
    let mut ctx = LayoutContext::new(4, 4);
    let index = list_yard.layout(&mut ctx);
    assert_eq!(index, 0);
    assert!(ctx.foci().is_empty());
    assert_eq!(*ctx.hold().yard_bounds(5), region(0, 0, 4, 4));
}

#[test]
fn a_list_whose_tops_do_not_match_shows_nothing() {
    let mut model = ScrollModel::new_count_height(7, 3, 2, 0);
    model.item_tops.pop();
    let yards: Vec<FillYard> = (0..3).map(|_| fill_yard(FillColor::Background)).collect();
    assert!(!model.layout_fits(&region(0, 0, 10, 4)));
    let list_yard = list(yards, model, SyncLink { channel: 1 });
    let mut ctx = LayoutContext::new(10, 4);
    let index = list_yard.layout(&mut ctx);
    assert_eq!(index, 0);
    assert!(ctx.foci().is_empty());
    assert_eq!(*ctx.hold().yard_bounds(7), region(0, 0, 10, 4));
}

#[test]
fn layout_fits_consistent_models() {
    let model = ScrollModel::new(3, vec![2, 5, 1], 0);
    assert!(model.layout_fits(&region(0, 0, 8, 4)));
    assert!(model.layout_fits(&region(0, 0, 8, 100)));
    let far = Bounds { right: 8, bottom: i32::MAX, left: 0, top: i32::MAX - 1, z: 0 };
    assert!(!model.layout_fits(&far));
}

#[test]
fn update_moves_a_model_that_is_not_consistent() {
    let mut model = ScrollModel::new(3, vec![2, 5, 1], 0);
    model.min_item_height = 9;
    let down = model.update(ScrollAction::Down).unwrap();
    assert_eq!(down.nexus, Nexus::Down { last_pos: 6, item_index: 1, max_index: 3 });
    assert_eq!(down.min_item_height, 9);
    assert_eq!(model.update(ScrollAction::Up).map(|m| m.nexus), None);
}

#[test]
fn a_list_paints_the_items_it_shows() {
    let model = ScrollModel::new_count_height(7, 5, 2, 0);
    let yards: Vec<FillYard> = vec![
        fill_yard(FillColor::Primary),
        fill_yard(FillColor::BackgroundWithFocus),
        fill_yard(FillColor::Primary),
        fill_yard(FillColor::Primary),
        fill_yard(FillColor::Primary),
    ];
    let list_yard = list(yards, model, SyncLink { channel: 1 });
    let mut ctx = LayoutContext::new(3, 4);
    list_yard.layout(&mut ctx);
    let cells = yui::paint::paint(&list_yard, ctx.hold(), 7, 3, 4);
    let fills: Vec<FillColor> = cells.iter().map(|row| row[0].fill_color).collect();
    assert_eq!(fills, vec![FillColor::Primary, FillColor::Primary, FillColor::BackgroundWithFocus, FillColor::BackgroundWithFocus]);
    assert!(cells.iter().flatten().all(|spot| spot.stroke.is_none()));
}

#[test]
fn pivot_row_takes_a_millionth_of_a_row_off() {
    let nexus = Nexus::Down { last_pos: 1, item_index: 0, max_index: 2 };
    assert_eq!(nexus.pivot_row(1500001, 0, 3000001, 1, &vec![0, 2]), 0);
    let up = Nexus::Up { first_pos: 4, item_index: 1, max_index: 3 };
    assert_eq!(up.pivot_row(5, 10, 10, 1, &vec![0, 4, 8]), 12);
}
