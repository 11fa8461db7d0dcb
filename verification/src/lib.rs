//! A small retained-mode GUI toolkit: a scene of views, their layout,
//! hit testing, focus and dirty-region tracking, and the state machines of
//! the built-in widgets.
pub mod button;
pub mod geom;
pub mod grid;
pub mod input;
pub mod label;
pub mod list_view;
pub mod panel;
pub mod tabbed_panel;
pub mod tables;
pub mod text;
pub mod text_input;
pub mod toggle_button;
pub mod toggle_group;
pub mod util;
pub mod view;
pub mod scene;
pub mod events;
pub mod layouts;
pub mod layout_laws;
pub mod draw;
pub mod menu;
