//! A terminal user-interface toolkit: rectangular bounds arithmetic, the
//! yards that make up a screen and how each claims its regions in a layout,
//! the scrolling model of lists, focus navigation between interactive
//! regions, the state machines of buttons and pressable items, and the
//! numbering of colour pairs.

pub mod bounds;
pub mod nexus;
pub mod scroll;
pub mod focus;
pub mod depth;
pub mod link;
pub mod button;
pub mod palette;
pub mod textfield;
pub mod tabbar;
pub mod layout;
pub mod yards;
pub mod combine;
pub mod widgets;
pub mod screen;
pub mod table;
pub mod paint;
