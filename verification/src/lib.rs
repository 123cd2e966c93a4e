//! Realtime backend for shared 3D spaces: the rules that decide who may do
//! what, and what every client is told about it.

pub mod agents;
pub mod auth;
pub mod chain;
pub mod config;
pub mod error;
pub mod json;
pub mod laws;
pub mod limits;
pub mod origin_guard;
pub mod pubkey;
pub mod realtime;
pub mod routes;
pub mod scalar;
pub mod services;
pub mod state;
pub mod store;
pub mod text;
pub mod text_map;
