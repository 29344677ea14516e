//! The verified core of a tray tool that rotates the default audio output device.

pub mod device;
pub mod effect;
pub mod error;
pub mod menu;
pub mod message;
pub mod rotation;
pub mod search;
pub mod state;
pub mod switch;
pub mod utf16;
