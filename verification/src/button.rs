//! The states of buttons: whether a button is enabled and with what
//! priority, and the press-and-release cycle of a submit button.

use crate::link::{random_id, SyncLink, Trigger};
use vstd::prelude::*;

verus! {

/// A button's claim to the initial focus.
#[derive(Copy, Clone, Debug, PartialEq, Eq, Structural)]
pub enum Priority {
    Ordinary,
    Default,
}

/// The focus priority of a button: default buttons outrank the rest.
pub fn focus_priority(priority: &Priority) -> (r: u32)
    ensures
        r == (if *priority == Priority::Default { 1000u32 } else { 0u32 }),
{
    match priority {
        Priority::Ordinary => 0,
        Priority::Default => 1000,
    }
}

/// Whether a button responds to clicks, with what priority, and what a
/// click runs (`C`).
pub enum ButtonState<C> {
    Enabled(Priority, C),
    Disabled,
}

impl<C> ButtonState<C> {
    pub fn is_enabled(&self) -> (r: bool)
        ensures
            r == (*self is Enabled),
    {
        match self {
            ButtonState::Enabled(_, _) => true,
            ButtonState::Disabled => false,
        }
    }

    /// An enabled button of no particular priority.
    pub fn enabled(click: C) -> (r: Self)
        ensures
            r == ButtonState::Enabled(Priority::Ordinary, click),
    {
        ButtonState::Enabled(Priority::Ordinary, click)
    }

    /// An enabled button that claims the initial focus.
    pub fn default(click: C) -> (r: Self)
        ensures
            r == ButtonState::Enabled(Priority::Default, click),
    {
        ButtonState::Enabled(Priority::Default, click)
    }

    pub fn disabled() -> (r: Self)
        ensures
            r == ButtonState::<C>::Disabled,
    {
        ButtonState::Disabled
    }
}

/// Whether a submit button can be pressed, is being pressed, or neither.
#[derive(Copy, Clone, Debug, PartialEq, Eq, Structural)]
pub enum SubmitAffordance {
    Disabled,
    Enabled { press_link: SyncLink, priority: Priority },
    Pressed { press_link: SyncLink, priority: Priority },
}

impl SubmitAffordance {
    pub fn enabled(press_link: SyncLink) -> (r: SubmitAffordance)
        ensures
            r == (SubmitAffordance::Enabled { press_link, priority: Priority::Ordinary }),
    {
        SubmitAffordance::Enabled { press_link, priority: Priority::Ordinary }
    }

    /// A press takes an enabled button to pressed; otherwise nothing changes.
    pub open spec fn spec_pressed(self) -> SubmitAffordance {
        match self {
            SubmitAffordance::Enabled { press_link, priority } => SubmitAffordance::Pressed { press_link, priority },
            _ => self,
        }
    }

    /// A release takes a pressed button back to enabled; otherwise nothing changes.
    pub open spec fn spec_released(self) -> SubmitAffordance {
        match self {
            SubmitAffordance::Pressed { press_link, priority } => SubmitAffordance::Enabled { press_link, priority },
            _ => self,
        }
    }
}

#[derive(Copy, Clone, Debug, PartialEq, Eq, Structural)]
pub enum ButtonAction {
    Press,
    Release,
}

/// A submit button: its id and label, the trigger that releases it after a
/// press, and whether it can be pressed.
#[derive(Debug)]
pub struct ButtonModel {
    pub id: i32,
    pub label: String,
    pub release_trigger: Trigger,
    pub affordance: SubmitAffordance,
}

impl ButtonModel {
    /// A disabled button with a fresh random id.
    pub fn disabled(label: &str, release_trigger: Trigger) -> (r: ButtonModel)
        ensures
            r.label@ == label@,
            r.release_trigger == release_trigger,
            r.affordance == SubmitAffordance::Disabled,
    {
        let id = random_id();
        ButtonModel { id, label: label.to_owned(), release_trigger, affordance: SubmitAffordance::Disabled }
    }

    /// An enabled button with a fresh random id.
    pub fn enabled(label: &str, release_trigger: Trigger, press_link: SyncLink) -> (r: ButtonModel)
        ensures
            r.label@ == label@,
            r.release_trigger == release_trigger,
            r.affordance == (SubmitAffordance::Enabled { press_link, priority: Priority::Ordinary }),
    {
        let id = random_id();
        ButtonModel { id, label: label.to_owned(), release_trigger, affordance: SubmitAffordance::enabled(press_link) }
    }

    pub fn set_label(&self, label: &str) -> (r: ButtonModel)
        ensures
            r.id == self.id,
            r.label@ == label@,
            r.release_trigger == self.release_trigger,
            r.affordance == self.affordance,
    {
        ButtonModel { id: self.id, label: label.to_owned(), release_trigger: self.release_trigger, affordance: self.affordance }
    }

    /// The button relabelled and enabled on `press_link`.
    pub fn enable(&self, label: &str, press_link: SyncLink) -> (r: ButtonModel)
        ensures
            r.id == self.id,
            r.label@ == label@,
            r.release_trigger == self.release_trigger,
            r.affordance == (SubmitAffordance::Enabled { press_link, priority: Priority::Ordinary }),
    {
        ButtonModel {
            id: self.id,
            label: label.to_owned(),
            release_trigger: self.release_trigger,
            affordance: SubmitAffordance::enabled(press_link),
        }
    }

    /// The button relabelled and disabled.
    pub fn disable(&self, label: &str) -> (r: ButtonModel)
        ensures
            r.id == self.id,
            r.label@ == label@,
            r.release_trigger == self.release_trigger,
            r.affordance == SubmitAffordance::Disabled,
    {
        ButtonModel {
            id: self.id,
            label: label.to_owned(),
            release_trigger: self.release_trigger,
            affordance: SubmitAffordance::Disabled,
        }
    }

    /// The affordance after `action`.
    pub open spec fn spec_after(self, action: ButtonAction) -> SubmitAffordance {
        match action {
            ButtonAction::Press => self.affordance.spec_pressed(),
            ButtonAction::Release => self.affordance.spec_released(),
        }
    }

    /// The button after `action`: a press takes an enabled button to
    /// pressed, a release takes a pressed button back to enabled, and
    /// nothing else changes.
    pub fn update(&self, action: ButtonAction) -> (r: ButtonModel)
        ensures
            r.id == self.id,
            r.label@ == self.label@,
            r.release_trigger == self.release_trigger,
            r.affordance == self.spec_after(action),
    {
        match action {
            ButtonAction::Press => self.press(),
            ButtonAction::Release => self.release(),
        }
    }

    /// The trigger to fire a moment after `action`, releasing the button:
    /// only a press on an enabled button schedules one.
    pub fn release_to_schedule(&self, action: ButtonAction) -> (r: Option<Trigger>)
        ensures
            r == (if action == ButtonAction::Press && self.affordance is Enabled {
                Some(self.release_trigger)
            } else {
                None
            }),
    {
        match (action, self.affordance) {
            (ButtonAction::Press, SubmitAffordance::Enabled { .. }) => Some(self.release_trigger),
            _ => None,
        }
    }

    fn press(&self) -> (r: ButtonModel)
        ensures
            r.id == self.id,
            r.label@ == self.label@,
            r.release_trigger == self.release_trigger,
            r.affordance == self.affordance.spec_pressed(),
    {
        let new_affordance = match self.affordance {
            SubmitAffordance::Disabled => SubmitAffordance::Disabled,
            SubmitAffordance::Enabled { press_link, priority } => SubmitAffordance::Pressed { press_link, priority },
            SubmitAffordance::Pressed { press_link, priority } => SubmitAffordance::Pressed { press_link, priority },
        };
        ButtonModel { id: self.id, label: self.label.clone(), release_trigger: self.release_trigger, affordance: new_affordance }
    }

    fn release(&self) -> (r: ButtonModel)
        ensures
            r.id == self.id,
            r.label@ == self.label@,
            r.release_trigger == self.release_trigger,
            r.affordance == self.affordance.spec_released(),
    {
        let material = match self.affordance {
            SubmitAffordance::Disabled => SubmitAffordance::Disabled,
            SubmitAffordance::Enabled { press_link, priority } => SubmitAffordance::Enabled { press_link, priority },
            SubmitAffordance::Pressed { press_link, priority } => SubmitAffordance::Enabled { press_link, priority },
        };
        ButtonModel { id: self.id, label: self.label.clone(), release_trigger: self.release_trigger, affordance: material }
    }
}

/// A release undoes a press: an enabled button pressed and then released
/// is enabled again on the same link with the same priority.
pub proof fn lemma_release_undoes_press(a: SubmitAffordance)
    requires
        a is Enabled,
    ensures
        a.spec_pressed().spec_released() == a,
        a.spec_pressed() is Pressed,
{
}

/// Pressing twice is pressing once, and releasing twice is releasing once;
/// a disabled button stays disabled.
pub proof fn lemma_press_release_idempotent(a: SubmitAffordance)
    ensures
        a.spec_pressed().spec_pressed() == a.spec_pressed(),
        a.spec_released().spec_released() == a.spec_released(),
        a is Disabled ==> a.spec_pressed() is Disabled && a.spec_released() is Disabled,
{
}

/// A press on a pressed button schedules no second release, so one press
/// cycle fires its release trigger once.
pub proof fn lemma_one_release_per_press(m: ButtonModel)
    requires
        m.affordance is Enabled,
    ensures
        m.spec_after(ButtonAction::Press) is Pressed,
        !(m.spec_after(ButtonAction::Press) is Enabled),
{
}

#[derive(Copy, Clone, Debug, PartialEq, Eq, Structural)]
pub enum PressAction {
    Press,
    Release,
}

/// A pressable item: its id, whether it is pressed, and the trigger that
/// releases it a moment after a press.
#[derive(Copy, Clone, Debug, PartialEq, Eq, Structural)]
pub struct PressModel {
    id: i32,
    is_pressed: bool,
    release_trigger: Trigger,
}

impl PressModel {
    pub closed spec fn spec_id(self) -> i32 {
        self.id
    }

    pub closed spec fn spec_is_pressed(self) -> bool {
        self.is_pressed
    }

    pub closed spec fn spec_release_trigger(self) -> Trigger {
        self.release_trigger
    }

    pub fn id(&self) -> (r: i32)
        ensures
            r == self.spec_id(),
    {
        self.id
    }

    pub fn is_pressed(&self) -> (r: bool)
        ensures
            r == self.spec_is_pressed(),
    {
        self.is_pressed
    }

    pub fn new(id: i32, release_trigger: Trigger) -> (r: PressModel)
        ensures
            r.spec_id() == id,
            !r.spec_is_pressed(),
            r.spec_release_trigger() == release_trigger,
    {
        PressModel { id, is_pressed: false, release_trigger }
    }

    /// The item after `action`: pressed after a press, not after a release.
    pub fn update(&self, action: PressAction) -> (r: PressModel)
        ensures
            r.spec_id() == self.spec_id(),
            r.spec_release_trigger() == self.spec_release_trigger(),
            r.spec_is_pressed() == (action == PressAction::Press),
    {
        let mut model = *self;
        match action {
            PressAction::Press => {
                model.is_pressed = true;
            },
            PressAction::Release => {
                model.is_pressed = false;
            },
        }
        model
    }

    /// The trigger to fire a moment after `action`: only a press on an item
    /// that is not pressed schedules a release.
    pub fn release_to_schedule(&self, action: PressAction) -> (r: Option<Trigger>)
        ensures
            r == (if action == PressAction::Press && !self.spec_is_pressed() {
                Some(self.spec_release_trigger())
            } else {
                None
            }),
    {
        match action {
            PressAction::Press => if !self.is_pressed {
                Some(self.release_trigger)
            } else {
                None
            },
            PressAction::Release => None,
        }
    }
}

} // verus!
