//! Desktops and windows in a keyboard-driven popup: everything that the popup
//! decides, apart from talking to the X server and painting pixels.

pub mod action;
pub mod behaviour;
pub mod config;
pub mod cursor;
pub mod ewmh;
pub mod icon;
pub mod keymap;
pub mod keys;
pub mod layout;
pub mod mouse;
pub mod place;
pub mod popup;
pub mod probe;
pub mod property;
pub mod render;
pub mod rows;
pub mod session;
pub mod settings;
pub mod state;
pub mod text;
pub mod wm;
mod x11;
