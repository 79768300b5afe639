use yui::bounds::{Bounds, Cling};
use yui::button::{ButtonAction, ButtonModel, ButtonState, Priority, SubmitAffordance};
use yui::focus::{Focus, FocusAction, FocusKeys, FocusReply, FocusType, MotionKeys};
use yui::layout::{LayoutContext, Yard};
use yui::link::{SyncLink, Trigger};
use yui::palette::{FillColor, StrokeColor};
use yui::widgets::{button, button2, button_labelled, button_yard, filled_button, pressable};
use yui::yards::fill_yard;

fn region(left: i32, top: i32, right: i32, bottom: i32, z: i32) -> Bounds {
    Bounds { right, bottom, left, top, z }
}

#[test]
fn enabled_button_offers_a_submit_focus() {
    let link = SyncLink { channel: 2 };
    let yard = button_labelled(5, "OK", ButtonState::enabled(link));
    assert_eq!(yard.label_yard.string, vec!['O', 'K']);
    assert_eq!(yard.label_yard.color, StrokeColor::EnabledOnBackground);
    assert_eq!(yard.label_yard.cling, Cling::Center);
    assert_eq!(yard.focus_priority, Some(0));
    assert_eq!(yard.on_press, Some(link));
    let mut ctx = LayoutContext::new(6, 1);
    assert_eq!(yard.layout(&mut ctx), 0);
    assert_eq!(
        ctx.foci().clone(),
        vec![Focus {
            yard_id: 5,
            focus_type: FocusType::Submit,
            bounds: region(0, 0, 6, 1, 0),
            priority: 0,
            action_block: FocusKeys::Touch,
        }]
    );
    assert_eq!(ctx.foci()[0].act(FocusAction::Go), FocusReply::Touch(5));
    assert_eq!(*ctx.hold().yard_bounds(5), region(0, 0, 6, 1, 0));
    assert_eq!(*ctx.hold().yard_bounds(yard.label_yard.id), region(0, 0, 6, 1, 0));
}

#[test]
fn default_button_outranks_others() {
    let yard = button_labelled(5, "OK", ButtonState::default(SyncLink { channel: 2 }));
    assert_eq!(yard.focus_priority, Some(1000));
}

#[test]
fn button_shows_its_text_in_uppercase() {
    let yard = button("save", ButtonState::<SyncLink>::disabled());
    assert_eq!(yard.label_yard.string, vec!['S', 'A', 'V', 'E']);
    assert_eq!(yard.label_yard.color, StrokeColor::Comment);
    assert_eq!(yard.focus_priority, None);
    assert_eq!(yard.on_press, None);
    let mut ctx = LayoutContext::new(6, 1);
    yard.layout(&mut ctx);
    assert!(ctx.foci().is_empty());
    assert_eq!(*ctx.hold().yard_bounds(yard.id), region(0, 0, 6, 1, 0));
}

#[test]
fn button_state_reports_whether_enabled() {
    assert!(ButtonState::enabled(1u8).is_enabled());
    assert!(ButtonState::default(1u8).is_enabled());
    assert!(!ButtonState::<u8>::disabled().is_enabled());
}

#[test]
fn button_model_yard_follows_its_affordance() {
    let link = SyncLink { channel: 7 };
    let model = ButtonModel::enabled("go", Trigger { channel: 8 }, link);
    let yard = button2(&model);
    assert_eq!(yard.id, model.id);
    assert_eq!(yard.label_yard.string, vec!['G', 'O']);
    assert_eq!(yard.label_yard.color, StrokeColor::EnabledOnBackground);
    assert_eq!(yard.focus_priority, Some(0));
    assert_eq!(yard.on_press, Some(link));
    assert_eq!(yard.press_keys, FocusKeys::Send { link, value: model.id });
    let mut ctx = LayoutContext::new(4, 1);
    yard.layout(&mut ctx);
    assert_eq!(ctx.foci()[0].act(FocusAction::Go), FocusReply::Send(link, model.id));
    let pressed = button2(&model.update(ButtonAction::Press));
    assert_eq!(pressed.focus_priority, Some(0));
    assert_eq!(pressed.on_press, None);
    assert_eq!(pressed.press_keys, FocusKeys::Ignore);
    let disabled = button2(&model.disable("stop"));
    assert_eq!(disabled.label_yard.string, vec!['S', 'T', 'O', 'P']);
    assert_eq!(disabled.label_yard.color, StrokeColor::Comment);
    assert_eq!(disabled.focus_priority, None);
}

#[test]
fn filled_button_lays_out_fill_label_and_focus() {
    let yard = button_yard("yes");
    assert_eq!(yard.label_yard.string, vec!['Y', 'E', 'S']);
    assert_eq!(yard.fill_yard.color, FillColor::BackgroundWithFocus);
    let mut ctx = LayoutContext::new(5, 1);
    assert_eq!(yard.layout(&mut ctx), 0);
    assert_eq!(
        ctx.foci().clone(),
        vec![Focus {
            yard_id: yard.id,
            focus_type: FocusType::Submit,
            bounds: region(0, 0, 5, 1, 0),
            priority: 0,
            action_block: FocusKeys::Ignore,
        }]
    );
    assert_eq!(*ctx.hold().yard_bounds(yard.fill_yard.id), region(0, 0, 5, 1, 0));
    let plain = filled_button("as is");
    assert_eq!(plain.label_yard.string, vec!['a', 's', ' ', 'i', 's']);
}

#[test]
fn pressable_catches_inner_foci_and_offers_its_own() {
    let inner = button_labelled(31, "X", ButtonState::enabled(SyncLink { channel: 1 }));
    let yard = pressable(inner, SyncLink { channel: 4 });
    let mut ctx = LayoutContext::new(4, 2);
    let index = yard.layout(&mut ctx);
    assert_eq!(index, 1);
    assert_eq!(ctx.bounds(1), region(0, 0, 4, 2, -1));
    assert_eq!(*ctx.hold().yard_bounds(yard.id), region(0, 0, 4, 2, -1));
    assert_eq!(
        ctx.foci().clone(),
        vec![Focus {
            yard_id: yard.id,
            focus_type: FocusType::Submit,
            bounds: region(0, 0, 4, 2, 0),
            priority: 0,
            action_block: FocusKeys::Send { link: SyncLink { channel: 4 }, value: yard.id },
        }]
    );
    assert_eq!(ctx.foci()[0].act(FocusAction::Go), FocusReply::Send(SyncLink { channel: 4 }, yard.id));
}

#[test]
fn pressable_over_a_fill() {
    let fill = fill_yard(FillColor::Primary);
    let fill_id = fill.id;
    let yard = pressable(fill, SyncLink { channel: 4 });
    let mut ctx = LayoutContext::new(4, 2);
    yard.layout(&mut ctx);
    assert_eq!(*ctx.hold().yard_bounds(fill_id), region(0, 0, 4, 2, -1));
}

#[test]
fn priorities_of_models() {
    let model = ButtonModel::enabled("go", Trigger { channel: 8 }, SyncLink { channel: 7 });
    let affordance = SubmitAffordance::Enabled { press_link: SyncLink { channel: 7 }, priority: Priority::Default };
    let promoted = ButtonModel { affordance, ..model };
    assert_eq!(button2(&promoted).focus_priority, Some(1000));
}

#[test]
fn table_lays_out_headers_rule_and_rows() {
    let scroll = yui::scroll::ScrollModel::new_count_height(7, 2, 1, 0);
    let headers = vec![(5usize, "Name".to_string()), (3usize, "Ag".to_string())];
    let rows = vec![
        vec!["Al".to_string(), "30".to_string()],
        vec!["Bo".to_string(), "41".to_string()],
    ];
    let yard = yui::table::table(scroll, SyncLink { channel: 1 }, headers, rows, SyncLink { channel: 2 });
    assert_eq!(yard.far_yard.grade, yui::palette::FillGrade::Select);
    let header = &yard.near_yard.first_yard.items;
    assert_eq!((header[0].0, header[1].0), (5, 3));
    assert_eq!(header[0].1.yard.string, vec!['N', 'a', 'm', 'e']);
    assert_eq!(header[0].1.yard.cling, Cling::LeftBottom);
    let rule = &yard.near_yard.second_yard.first_yard;
    assert_eq!(rule.glyph, '_');
    let list_yard = &yard.near_yard.second_yard.second_yard;
    let row_yards = list_yard.yards();
    assert_eq!(row_yards.len(), 2);
    assert_eq!(row_yards[1].press_keys, FocusKeys::Select { link: SyncLink { channel: 2 }, index: 1 });
    assert_eq!(row_yards[1].yard.items[0].1.yard.string, vec!['B', 'o']);
    assert_eq!(row_yards[1].yard.items[1].0, 3);

    let mut ctx = LayoutContext::new(10, 6);
    yard.layout(&mut ctx);
    assert_eq!(*ctx.hold().yard_bounds(header[0].1.yard.id), region(2, 0, 3, 2, -1));
    assert_eq!(*ctx.hold().yard_bounds(rule.id), region(0, 2, 10, 3, -1));
    assert_eq!(*ctx.hold().yard_bounds(row_yards[0].yard.items[0].1.yard.id), region(2, 3, 3, 4, -2));
    assert_eq!(*ctx.hold().yard_bounds(row_yards[1].yard.items[0].1.yard.id), region(2, 4, 3, 5, -2));
    assert_eq!(
        ctx.foci().clone(),
        vec![Focus {
            yard_id: 7,
            focus_type: FocusType::CompositeSubmit(MotionKeys::Scroll {
                link: SyncLink { channel: 1 },
                item_index: 0,
                max_index: 2,
            }),
            bounds: region(0, 3, 10, 6, -1),
            priority: 0,
            action_block: FocusKeys::Select { link: SyncLink { channel: 2 }, index: 0 },
        }]
    );
    assert_eq!(ctx.foci()[0].act(FocusAction::Go), FocusReply::Select(SyncLink { channel: 2 }, 0));
}

#[test]
fn button_shade_follows_focus_and_press() {
    let yard = button_labelled(5, "OK", ButtonState::enabled(SyncLink { channel: 2 }));
    assert_eq!(yard.render(5, false), yui::palette::FillGrade::Focus);
    assert_eq!(yard.render(5, true), yui::palette::FillGrade::Press);
    assert_eq!(yard.render(6, true), yui::palette::FillGrade::Plain);
    let press = pressable(fill_yard(FillColor::Primary), SyncLink { channel: 4 });
    assert_eq!(press.press_keys, FocusKeys::Send { link: SyncLink { channel: 4 }, value: press.id });
    assert_eq!(press.render(press.id, true), Some(yui::palette::FillGrade::Press));
    assert_eq!(press.render(press.id, false), Some(yui::palette::FillGrade::Focus));
    assert_eq!(press.render(press.id.wrapping_add(1), false), None);
}
