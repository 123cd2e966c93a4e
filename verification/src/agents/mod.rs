//! Automatic players: the ones that live in the world as clients, and the
//! bridge through which others are driven.

pub mod bot;
pub mod bridge;
pub mod chat;
pub mod conduct;
pub mod llm;
pub mod queue;
pub mod rng;
pub mod session;
pub mod settings;
pub mod world;
