//! The Kitty graphics protocol: the packets that go out and the responses that come back.

pub mod action;
pub mod base64;
pub mod delete;
pub mod display;
pub mod error;
pub mod format;
pub mod id;
pub mod image;
pub mod medium;
pub mod packet;
pub mod pixels;
pub mod placeholder;
pub mod reader;
pub mod response;
pub mod run;
pub mod screen;
pub mod show;
pub mod tmux;
pub mod transfer;
