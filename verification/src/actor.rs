//! The actors of the server: their messages and their decisions.

pub mod editor;
pub mod render;
pub mod typst;
pub mod webview;
pub mod world;
