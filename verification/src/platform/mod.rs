//! Backends chosen per capability at startup.
pub mod eis;
pub mod portal;
pub mod kde;
pub mod kwin;
pub mod registry;
pub mod gnome;
