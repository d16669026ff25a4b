//! The viewer: what it does on a key, on a message of the renderer and when it draws.

pub mod answer;
pub mod command;
pub mod draw;
pub mod effects;
pub mod event_loop;
pub mod every_key;
pub mod handle;
pub mod input;
pub mod keys;
pub mod laws;
pub mod react;
pub mod session;
pub mod startup;
pub mod surface;
pub mod typing;
