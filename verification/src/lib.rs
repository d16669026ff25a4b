//! The logic of a terminal document viewer that draws pages with the Kitty graphics protocol.

pub mod arguments;
pub mod cli;
pub mod document;
pub mod error;
pub mod export;
pub mod kitty;
pub mod messages;
pub mod path;
pub mod text;
pub mod viewer;
