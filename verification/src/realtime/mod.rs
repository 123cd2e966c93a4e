//! Presence, chat, movement and per-space room state.

pub mod clients;
pub mod handlers;
pub mod messages;
pub mod motion;
pub mod rooms;
pub mod validate;
