//! Control core of a daemon for button-grid input devices: shared buttons,
//! navigation panels, the per-device panel stack, key dispatch, the socket
//! packet protocol and the device configuration requests.

pub mod button;
pub mod codec;
pub mod components;
pub mod config;
pub mod device;
pub mod folders;
pub mod json;
pub mod lookup;
pub mod packet;
pub mod panel;
pub mod registry;
pub mod stack;
pub mod token;
pub mod values;
