use yui::bounds::{Bounds, Cling};
use yui::focus::{Focus, FocusAction, FocusKeys, FocusMotion, FocusMotionFuture, FocusReply, FocusType, MotionKeys};
use yui::layout::{LayoutContext, Yard};
use yui::link::SyncLink;
use yui::palette::{FillColor, StrokeColor};
use yui::tabbar::{
    reselect, tab_yard, tabbar, tabbar_yard, TabBar, TabItem, TabPlacement, TabSelection, TabsSpark, TabsState,
};
use yui::textfield::{
    is_control, textfield, textfield_action, textfield_motion, BodyView, EditAction, TextfieldYard,
};
use yui::paint::paint;
use yui::yards::Split;

fn region(left: i32, top: i32, right: i32, bottom: i32, z: i32) -> Bounds {
    Bounds { right, bottom, left, top, z }
}

fn field(chars: &str, cursor_index: usize, label: &str) -> TextfieldYard {
    TextfieldYard {
        id: 300,
        label_chars: label.chars().collect(),
        chars: chars.chars().collect(),
        cursor_index,
        update: SyncLink { channel: 1 },
    }
}

#[test]
fn control_characters() {
    assert!(is_control('\u{0}'));
    assert!(is_control('\u{1f}'));
    assert!(is_control('\u{7f}'));
    assert!(is_control('\u{9f}'));
    assert!(!is_control(' '));
    assert!(!is_control('é'));
    assert!(!is_control('\u{a0}'));
}

#[test]
fn arrow_keys_move_the_cursor_until_an_end() {
    assert_eq!(textfield_motion(0, 3, FocusMotion::Left), (FocusMotionFuture::Default, None));
    assert_eq!(textfield_motion(1, 3, FocusMotion::Left), (FocusMotionFuture::Skip, Some(EditAction::MoveCursorLeft)));
    assert_eq!(textfield_motion(3, 3, FocusMotion::Right), (FocusMotionFuture::Default, None));
    assert_eq!(textfield_motion(2, 3, FocusMotion::Right), (FocusMotionFuture::Skip, Some(EditAction::MoveCursorRight)));
    assert_eq!(textfield_motion(1, 3, FocusMotion::Up), (FocusMotionFuture::Default, None));
    assert_eq!(textfield_motion(1, 3, FocusMotion::Down), (FocusMotionFuture::Default, None));
}

#[test]
fn keys_become_edits() {
    assert_eq!(textfield_action(FocusAction::Change('a')), Some(EditAction::InsertChar('a')));
    assert_eq!(textfield_action(FocusAction::Change('\u{8}')), Some(EditAction::DeleteCharBeforeCursor));
    assert_eq!(textfield_action(FocusAction::Change('\u{7f}')), Some(EditAction::DeleteCharAtCursor));
    assert_eq!(textfield_action(FocusAction::Change('\n')), None);
    assert_eq!(textfield_action(FocusAction::Go), None);
}

#[test]
fn textfield_layout_render() {
    let yard = textfield(300, "Label", "words".chars().collect(), 5, SyncLink { channel: 1 });
    assert_eq!(yard.far_yard.color, FillColor::Background);
    let mut ctx = LayoutContext::new(4, 3);
    let index = yard.layout(&mut ctx);
    assert_eq!(ctx.bounds(index), region(0, 0, 4, 3, -1));
    assert_eq!(
        ctx.foci().clone(),
        vec![Focus {
            yard_id: 300,
            focus_type: FocusType::Edit(MotionKeys::Cursor { link: SyncLink { channel: 1 }, cursor_index: 5, char_count: 5 }),
            bounds: region(0, 0, 4, 3, -1),
            priority: 0,
            action_block: FocusKeys::Edit { link: SyncLink { channel: 1 } },
        }]
    );
    let focus = ctx.foci()[0];
    assert_eq!(focus.act(FocusAction::Change('z')), FocusReply::Edit(SyncLink { channel: 1 }, EditAction::InsertChar('z')));
    assert_eq!(
        focus.motion(FocusMotion::Left),
        (FocusMotionFuture::Skip, FocusReply::Edit(SyncLink { channel: 1 }, EditAction::MoveCursorLeft))
    );
    assert_eq!(focus.motion(FocusMotion::Right), (FocusMotionFuture::Default, FocusReply::Nothing));
    let field_bounds = *ctx.hold().yard_bounds(300);
    let view = yard.near_yard.render(&field_bounds, true);
    // Row 0: the label, from column 1, in the focused colour.
    assert_eq!(view.head_bounds, region(1, 0, 3, 1, -1));
    assert_eq!(view.head_color, Some(StrokeColor::EnabledOnBackground));
    // Row 1: the last typed character at column 1, the cursor at column 2.
    assert_eq!(view.body_bounds, region(1, 1, 3, 2, -1));
    match view.body {
        BodyView::Edit { cursor_col, pre, cursor_glyph, post } => {
            assert_eq!(cursor_col, 1);
            assert_eq!(pre, vec!['s']);
            assert_eq!(cursor_glyph, None);
            assert!(post.is_empty());
        },
        BodyView::Hint => panic!("expected the text"),
    }
    // Row 2: the underline across the field.
    assert_eq!(view.foot_bounds, region(0, 2, 4, 3, -1));
    assert_eq!(view.foot_color, StrokeColor::EnabledOnBackground);
    // The cells, row by row. The palette names the typed text's colour
    // `Body`; cells keep no fill grade, so the select and focus shades of
    // the field and its cursor are not among them.
    let view = yard.near_yard.render(&field_bounds, true);
    let cells = view.paint(&yard.near_yard.label_chars, true, 4, 3);
    let strokes: Vec<Option<(char, StrokeColor)>> = cells.iter().flatten().map(|spot| spot.stroke).collect();
    let lit = Some(('_', StrokeColor::EnabledOnBackground));
    assert_eq!(
        strokes,
        vec![
            None,
            Some(('L', StrokeColor::EnabledOnBackground)),
            Some(('a', StrokeColor::EnabledOnBackground)),
            None,
            None,
            Some(('s', StrokeColor::Body)),
            None,
            None,
            lit,
            lit,
            lit,
            lit,
        ]
    );
    // The cursor cell is filled.
    assert_eq!((cells[1][2].fill_color, cells[1][2].fill_z), (FillColor::Background, -1));
    assert_eq!(cells[1][1].fill_z, i32::MAX);
    // The whole field, in front of its background, focused.
    let whole = paint(&yard, ctx.hold(), 300, 4, 3);
    let whole_strokes: Vec<Option<(char, StrokeColor)>> = whole.iter().flatten().map(|spot| spot.stroke).collect();
    assert_eq!(whole_strokes, strokes);
    assert!(whole.iter().flatten().all(|spot| spot.fill_color == FillColor::Background));
    // Unfocused, the typed text shows and the label dims.
    let unfocused = paint(&yard, ctx.hold(), 0, 4, 3);
    assert_eq!(unfocused[0][1].stroke, Some(('L', StrokeColor::Comment)));
    assert_eq!(unfocused[1][2].fill_z, 0);
}

#[test]
fn hint_cells_of_an_unfocused_empty_field() {
    let y = TextfieldYard {
        id: 7,
        label_chars: vec!['H', 'i'],
        chars: vec![],
        cursor_index: 0,
        update: SyncLink { channel: 1 },
    };
    let edge = region(0, 0, 4, 3, 0);
    let view = y.render(&edge, false);
    let cells = view.paint(&y.label_chars, false, 4, 3);
    let comment = StrokeColor::Comment;
    let strokes: Vec<Option<(char, StrokeColor)>> = cells.iter().flatten().map(|spot| spot.stroke).collect();
    assert_eq!(
        strokes,
        vec![
            None,
            None,
            None,
            None,
            None,
            Some(('H', comment)),
            Some(('i', comment)),
            None,
            Some(('_', comment)),
            Some(('_', comment)),
            Some(('_', comment)),
            Some(('_', comment)),
        ]
    );
    assert!(cells.iter().flatten().all(|spot| spot.fill_z == i32::MAX));
}

#[test]
fn unfocused_empty_field_shows_its_label_as_a_hint() {
    let view = field("", 0, "Name").render(&region(0, 0, 10, 3, 0), false);
    assert_eq!(view.head_color, None);
    assert!(matches!(view.body, BodyView::Hint));
    assert_eq!(view.foot_color, StrokeColor::Comment);
    let typed = field("Al", 2, "Name").render(&region(0, 0, 10, 3, 0), false);
    assert_eq!(typed.head_color, Some(StrokeColor::Comment));
}

#[test]
fn body_shows_text_around_the_cursor() {
    let f = field("ab\tcd", 1, "");
    match f.render_body(8, true) {
        BodyView::Edit { cursor_col, pre, cursor_glyph, post } => {
            assert_eq!(cursor_col, 1);
            assert_eq!(pre, vec!['a']);
            assert_eq!(cursor_glyph, Some('b'));
            assert_eq!(post, vec![' ', 'c', 'd']);
        },
        BodyView::Hint => panic!("expected the text"),
    }
    match field("ab\tcd", 2, "").render_body(8, true) {
        BodyView::Edit { cursor_glyph, .. } => assert_eq!(cursor_glyph, None),
        BodyView::Hint => panic!("expected the text"),
    }
}

#[test]
fn long_text_places_the_cursor_proportionally() {
    let f = field("abcdefghij", 4, "");
    match f.render_body(5, true) {
        BodyView::Edit { cursor_col, pre, cursor_glyph, post } => {
            assert_eq!(cursor_col, 2);
            assert_eq!(pre, vec!['c', 'd']);
            assert_eq!(cursor_glyph, Some('e'));
            assert_eq!(post, vec!['f', 'g', 'h', 'i', 'j']);
        },
        BodyView::Hint => panic!("expected the text"),
    }
}

#[test]
fn mod_layout_render() {
    let yard = tab_yard(500, "a", 0, 0, SyncLink { channel: 0 });
    let mut ctx = LayoutContext::new(3, 2);
    let index = yard.layout(&mut ctx);
    assert_eq!(index, 0);
    let label = &yard.content.first_yard.second_yard;
    let underline = &yard.content.second_yard;
    let label_bounds = *ctx.hold().yard_bounds(label.id);
    assert_eq!(label_bounds, region(0, 0, 3, 1, 0));
    assert_eq!(label.string, vec!['a']);
    assert_eq!(label.color, StrokeColor::PrimaryBody);
    assert_eq!(label.render(&label_bounds), region(1, 0, 3, 1, 0));
    let underline_bounds = *ctx.hold().yard_bounds(underline.id);
    assert_eq!(underline_bounds, region(0, 1, 3, 2, 0));
    assert_eq!(underline.glyph, '_');
    assert_eq!(underline.color, StrokeColor::PrimaryBody);
    assert_eq!(underline.render(&underline_bounds), Some(3));
    let cells = paint(&yard, ctx.hold(), 0, 3, 2);
    let strokes: Vec<(char, StrokeColor)> =
        cells.iter().flatten().map(|spot| spot.stroke.unwrap_or((' ', StrokeColor::Body))).collect();
    assert_eq!(
        strokes,
        vec![
            (' ', StrokeColor::Body),
            ('a', StrokeColor::PrimaryBody),
            (' ', StrokeColor::Body),
            ('_', StrokeColor::PrimaryBody),
            ('_', StrokeColor::PrimaryBody),
            ('_', StrokeColor::PrimaryBody),
        ]
    );
    assert!(cells.iter().flatten().all(|spot| spot.fill_color == FillColor::Primary));
    assert_eq!(
        ctx.foci().clone(),
        vec![Focus {
            yard_id: 500,
            focus_type: FocusType::Submit,
            bounds: region(0, 0, 3, 2, 0),
            priority: 500,
            action_block: FocusKeys::Select { link: SyncLink { channel: 0 }, index: 0 },
        }]
    );
}

#[test]
fn unselected_tab_has_no_underline() {
    let yard = tab_yard(7, "b", 1, 0, SyncLink { channel: 0 });
    assert_eq!(yard.content.second_yard.glyph, '\0');
    assert_eq!(yard.priority, 0);
    assert_eq!(yard.index, 1);
    assert_eq!(yard.content.divide, Split::Bottom(1));
}

fn bar() -> TabBar {
    TabBar::new(vec![TabItem::new(1, "one"), TabItem::new(2, "three")], 1, SyncLink { channel: 9 })
}

#[test]
fn tab_bar_places_tabs_side_by_side() {
    let bar = bar();
    assert_eq!(bar.bar_width(), 7 + 9);
    assert_eq!(
        bar.placements(),
        vec![
            TabPlacement { id: 1, index: 0, left: 0, width: 7, priority: 0, underline: '\0' },
            TabPlacement { id: 2, index: 1, left: 7, width: 9, priority: 500, underline: '_' },
        ]
    );
}

#[test]
fn tabbar_centres_its_tabs_over_a_fill() {
    let yard = tabbar(&bar());
    assert_eq!(yard.far_yard.color, FillColor::Primary);
    assert_eq!(yard.near_yard.width, 16);
    let row = &yard.near_yard.core_yard.items;
    assert_eq!(row.len(), 2);
    assert_eq!((row[0].0, row[1].0), (7, 9));
    assert_eq!((row[0].1.id, row[1].1.id), (1, 2));
    assert_eq!((row[0].1.priority, row[1].1.priority), (0, 500));
    let mut ctx = LayoutContext::new(20, 2);
    let index = yard.layout(&mut ctx);
    assert_eq!(ctx.bounds(index), region(0, 0, 20, 2, -1));
    assert_eq!(*ctx.hold().yard_bounds(1), region(2, 0, 9, 2, -1));
    assert_eq!(*ctx.hold().yard_bounds(2), region(9, 0, 18, 2, -1));
    let ids: Vec<(i32, u32)> = ctx.foci().iter().map(|f| (f.yard_id, f.priority)).collect();
    assert_eq!(ids, vec![(1, 0), (2, 500)]);
}

#[test]
fn tabbar_yard_underlines_with_dashes() {
    let tabs = vec![(4, "ab"), (5, "c")];
    let yard = tabbar_yard(&tabs, 0, SyncLink { channel: 2 });
    let row = &yard.near_yard.core_yard.items;
    assert_eq!(row[0].1.content.second_yard.glyph, '-');
    assert_eq!(row[1].1.content.second_yard.glyph, '\0');
    assert_eq!((row[0].1.priority, row[1].1.priority), (0, 0));
    assert_eq!(yard.near_yard.width, 6 + 5);
    assert_eq!(reselect(0, 1), Some(1));
    assert_eq!(reselect(1, 1), None);
}

#[test]
fn tabs_spark_reports_the_selection() {
    let spark = TabsSpark { tabs: vec![(3, "x".to_string()), (4, "yy".to_string())] };
    let state: TabsState = spark.create();
    assert_eq!(state.active_index, 0);
    assert_eq!(state.tabs, spark.tabs);
    assert_eq!(spark.flow(1), 1);
    let yard = TabsSpark::render(&state, SyncLink { channel: 5 });
    assert_eq!(yard.near_yard.width, 5 + 6);
    assert_eq!(yard.near_yard.core_yard.items[0].1.content.second_yard.glyph, '_');
    assert_eq!(yard.near_yard.core_yard.items[0].1.content.first_yard.second_yard.cling, Cling::Center);
}

#[test]
fn tab_fill_shows_focus() {
    let yard = tab_yard(7, "b", 1, 0, SyncLink { channel: 0 });
    assert_eq!(yard.render(7), (FillColor::Primary, yui::palette::FillGrade::Focus));
    assert_eq!(yard.render(8), (FillColor::Primary, yui::palette::FillGrade::Plain));
}

#[test]
fn tab_selection_reports_a_change_once() {
    let mut selection = TabSelection::new(0);
    assert_eq!(selection.press(1), Some(1));
    assert_eq!(selection.selected_index(), 1);
    assert_eq!(selection.press(1), None);
    assert_eq!(selection.selected_index(), 1);
    assert_eq!(selection.underline(1), '-');
    assert_eq!(selection.underline(0), '\0');
    let tabs = vec![(1, "one"), (2, "two")];
    let bar = selection.bar(&tabs, SyncLink { channel: 3 });
    let row = &bar.near_yard.core_yard.items;
    assert_eq!(row[1].1.content.second_yard.glyph, '-');
    assert_eq!(row[0].1.content.second_yard.glyph, '\0');
    assert_eq!(selection.press(0), Some(0));
}

#[test]
fn each_tab_offers_one_focus_that_sends_its_index() {
    let yard = tabbar(&bar());
    let mut ctx = LayoutContext::new(20, 2);
    yard.layout(&mut ctx);
    let foci = ctx.foci().clone();
    assert_eq!(foci.len(), 2);
    for (k, focus) in foci.iter().enumerate() {
        assert_eq!(focus.focus_type, FocusType::Submit);
        assert_eq!(focus.act(FocusAction::Go), FocusReply::Select(SyncLink { channel: 9 }, k));
    }
}

#[test]
fn a_bar_of_tabs_reports_only_a_change_of_selection() {
    let link = SyncLink { channel: 4 };
    let tabs = vec![(1, "one"), (2, "two")];
    let yard = tabbar_yard(&tabs, 0, link);
    let mut ctx = LayoutContext::new(20, 2);
    yard.layout(&mut ctx);
    let foci = ctx.foci().clone();
    assert_eq!(foci.len(), 2);
    assert_eq!(foci[0].act(FocusAction::Go), FocusReply::Reselect(link, 0));
    assert_eq!(foci[1].act(FocusAction::Go), FocusReply::Reselect(link, 1));
    let mut selection = TabSelection::new(0);
    // The selected tab: nothing is sent and the selection stays.
    assert_eq!(selection.answer(foci[0].act(FocusAction::Go)), None);
    assert_eq!(selection.selected_index(), 0);
    // Another tab: its index is sent once, and the dashes follow it.
    assert_eq!(selection.answer(foci[1].act(FocusAction::Go)), Some((link, 1)));
    assert_eq!(selection.answer(foci[1].act(FocusAction::Go)), None);
    assert_eq!(selection.selected_index(), 1);
    let again = selection.bar(&tabs, link);
    let row = &again.near_yard.core_yard.items;
    assert_eq!((row[0].1.content.second_yard.glyph, row[1].1.content.second_yard.glyph), ('\0', '-'));
    // Other replies leave the selection alone.
    assert_eq!(selection.answer(FocusReply::Select(link, 0)), None);
    assert_eq!(selection.selected_index(), 1);
}
