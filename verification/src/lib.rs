//! Keyboard and pointer sharing between two machines.
//!
//! One machine sends its keyboard and pointer input, the other injects it. The crate holds
//! everything that decides what happens: screen geometry, hotkeys, key mapping, framing and
//! authentication of the input channel, and the state machines of both ends.

pub mod agent_client;
pub mod agent_protocol;
pub mod agent_server;
pub mod channel;
pub mod cursor_capture;
pub mod edge;
pub mod framing;
pub mod geometry;
pub mod hotkey;
pub mod hotkey_laws;
pub mod identifier;
pub mod incoming;
pub mod macos;
pub mod mapping;
pub mod mapping_laws;
pub mod mock;
pub mod movement;
pub mod numeric;
pub mod platform;
pub mod pressed;
pub mod protocol;
pub mod receiver;
pub mod receiver_laws;
pub mod receiver_mock;
pub mod scroll;
pub mod sender;
pub mod sender_laws;
pub mod service;
pub mod session;
pub mod text;
pub mod trackpad_debug;
pub mod windows_capture;
pub mod windows_keys;
pub mod windows_loop;
