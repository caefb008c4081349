//! Decision logic of a Linux desktop-control server: key chords and input
//! events, window and element targeting, the steps of a request, capture
//! decoding, script limits, session environments and seat bookkeeping.
pub mod error;
pub mod types;
pub mod drivers;
pub mod registry;
pub mod text;
pub mod table;
pub mod keymap;
pub mod mode;
pub mod x11;
pub mod x11_commands;
pub mod input;
pub mod screenshot;
pub mod session;
pub mod platform;
pub mod desktop;
pub mod a11y;
pub mod request;
pub mod refs;
pub mod setup;
pub mod tools;
pub mod script;
