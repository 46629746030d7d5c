//! Verified core of a keyboard, mouse and touchpad usage tracker: the
//! decisions that turn raw input events into statistics, the rotating
//! access tokens of the local dashboard, and its request routing.

pub mod events;
pub mod control;
pub mod token;
pub mod text;
pub mod request;
pub mod touchpad;
pub mod combos;
pub mod aggregate;
pub mod capture;
pub mod hid;
pub mod format;
pub mod keymap;
