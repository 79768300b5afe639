use yui::button::{
    focus_priority, ButtonAction, ButtonModel, PressAction, PressModel, Priority, SubmitAffordance,
};
use yui::link::{SyncLink, Trigger};
use yui::palette::{FillColor, PairIndex, Palette, StrokeColor};

fn enabled_model() -> ButtonModel {
    ButtonModel::enabled("go", Trigger { channel: 8 }, SyncLink { channel: 7 })
}

#[test]
fn focus_priorities() {
    assert_eq!(focus_priority(&Priority::Ordinary), 0);
    assert_eq!(focus_priority(&Priority::Default), 1000);
}

#[test]
fn new_button_models() {
    let disabled = ButtonModel::disabled("off", Trigger { channel: 1 });
    assert_eq!(disabled.label, "off");
    assert_eq!(disabled.affordance, SubmitAffordance::Disabled);
    let enabled = enabled_model();
    assert_eq!(enabled.label, "go");
    assert_eq!(
        enabled.affordance,
        SubmitAffordance::Enabled { press_link: SyncLink { channel: 7 }, priority: Priority::Ordinary }
    );
    assert_eq!(enabled.release_trigger, Trigger { channel: 8 });
}

#[test]
fn relabelling_keeps_the_button() {
    let model = enabled_model();
    let relabelled = model.set_label("run");
    assert_eq!(relabelled.id, model.id);
    assert_eq!(relabelled.label, "run");
    assert_eq!(relabelled.affordance, model.affordance);
    let disabled = model.disable("wait");
    assert_eq!(disabled.id, model.id);
    assert_eq!(disabled.affordance, SubmitAffordance::Disabled);
    let enabled = disabled.enable("again", SyncLink { channel: 3 });
    assert_eq!(enabled.label, "again");
    assert_eq!(
        enabled.affordance,
        SubmitAffordance::Enabled { press_link: SyncLink { channel: 3 }, priority: Priority::Ordinary }
    );
}

#[test]
fn press_then_release_returns_to_enabled() {
    let model = enabled_model();
    let pressed = model.update(ButtonAction::Press);
    assert!(matches!(pressed.affordance, SubmitAffordance::Pressed { .. }));
    assert_eq!(model.release_to_schedule(ButtonAction::Press), Some(Trigger { channel: 8 }));
    assert_eq!(pressed.release_to_schedule(ButtonAction::Press), None);
    let pressed_again = pressed.update(ButtonAction::Press);
    assert_eq!(pressed_again.affordance, pressed.affordance);
    let released = pressed.update(ButtonAction::Release);
    assert_eq!(released.affordance, model.affordance);
    assert_eq!(released.id, model.id);
    assert_eq!(released.update(ButtonAction::Release).affordance, model.affordance);
    assert_eq!(pressed.release_to_schedule(ButtonAction::Release), None);
}

#[test]
fn disabled_button_ignores_presses() {
    let model = ButtonModel::disabled("off", Trigger { channel: 1 });
    assert_eq!(model.update(ButtonAction::Press).affordance, SubmitAffordance::Disabled);
    assert_eq!(model.update(ButtonAction::Release).affordance, SubmitAffordance::Disabled);
    assert_eq!(model.release_to_schedule(ButtonAction::Press), None);
}

#[test]
fn press_model_cycle() {
    let model = PressModel::new(12, Trigger { channel: 4 });
    assert_eq!(model.id(), 12);
    assert!(!model.is_pressed());
    assert_eq!(model.release_to_schedule(PressAction::Press), Some(Trigger { channel: 4 }));
    let pressed = model.update(PressAction::Press);
    assert!(pressed.is_pressed());
    assert_eq!(pressed.release_to_schedule(PressAction::Press), None);
    assert!(pressed.update(PressAction::Press).is_pressed());
    let released = pressed.update(PressAction::Release);
    assert!(!released.is_pressed());
    assert_eq!(released, model);
    assert_eq!(released.release_to_schedule(PressAction::Release), None);
}

#[test]
fn palette_hands_out_pairs_in_first_use_order() {
    let mut palette = Palette::new();
    assert_eq!(
        palette.color_pair_index(StrokeColor::Body, FillColor::Background),
        PairIndex { index: 1, fresh: true }
    );
    assert_eq!(
        palette.color_pair_index(StrokeColor::Comment, FillColor::Primary),
        PairIndex { index: 2, fresh: true }
    );
    assert_eq!(
        palette.color_pair_index(StrokeColor::Body, FillColor::Background),
        PairIndex { index: 1, fresh: false }
    );
    assert_eq!(
        palette.color_pair_index(StrokeColor::EnabledOnBackground, FillColor::BackgroundWithFocus),
        PairIndex { index: 3, fresh: true }
    );
}

#[test]
fn colours_map_to_terminal_colours() {
    assert_eq!(i16::from(FillColor::Background), 7);
    assert_eq!(i16::from(FillColor::Primary), 1);
    assert_eq!(i16::from(FillColor::BackgroundWithFocus), 5);
    assert_eq!(i16::from(StrokeColor::Body), 3);
    assert_eq!(i16::from(StrokeColor::PrimaryBody), 5);
    assert_eq!(i16::from(StrokeColor::Comment), 5);
    assert_eq!(i16::from(StrokeColor::EnabledOnBackground), 1);
}
