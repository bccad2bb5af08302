//! Gesture capture and binding resolution for HID++ mice.
//!
//! The crate holds the decisions of a gesture-capable mouse agent: which
//! buttons gesture on a device, which action each button and swipe direction
//! runs, how device reports become captured inputs, and in which order
//! controls are diverted and handed back. Everything here works on plain
//! values; transports and timers live with the caller.

pub mod arming;
pub mod binding;
pub mod bindings;
pub mod capture;
pub mod config;
pub mod divert;
pub mod gesture_buttons;
pub mod live_set;
pub mod maps;
pub mod swipe;
pub mod text;
pub mod transcript;
pub mod wire;
